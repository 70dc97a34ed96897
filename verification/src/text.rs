//! Character-level helpers shared by the decoder and the dispatcher:
//! searching, splitting, decimal numbers and token substitution, each with
//! its meaning stated over sequences of characters.

use vstd::prelude::*;
use vstd::std_specs::iter::IteratorSpec;
use vstd::string::StrSliceExecFns;
use vstd::string::StringExecFns;

verus! {

/// Position of the first item of `s` equal to `c`, or `s.len()` where `s`
/// holds none.
pub open spec fn index_of<T>(s: Seq<T>, c: T) -> int
    decreases s.len(),
{
    if s.len() == 0 || s[0] == c {
        0
    } else {
        1 + index_of(s.drop_first(), c)
    }
}

/// `index_of` lies within `0..=s.len()`, nothing before it is `c`, and the
/// item at it, if there is one, is `c`.
pub proof fn lemma_index_of_is_first<T>(s: Seq<T>, c: T)
    ensures
        0 <= index_of(s, c) <= s.len(),
        forall|k: int| 0 <= k < index_of(s, c) ==> s[k] != c,
        index_of(s, c) < s.len() ==> s[index_of(s, c)] == c,
    decreases s.len(),
{
    if s.len() == 0 || s[0] == c {
    } else {
        let t = s.drop_first();
        lemma_index_of_is_first(t, c);
        assert forall|k: int| 0 <= k < index_of(s, c) implies s[k] != c by {
            if k > 0 {
                assert(s[k] == t[k - 1]);
            }
        }
    }
}

/// The one position with no `c` before it and either `c` or the end at it
/// is `index_of`.
pub proof fn lemma_index_of_unique<T>(s: Seq<T>, c: T, i: int)
    requires
        0 <= i <= s.len(),
        forall|k: int| 0 <= k < i ==> s[k] != c,
        i < s.len() ==> s[i] == c,
    ensures
        index_of(s, c) == i,
    decreases s.len(),
{
    if s.len() == 0 || s[0] == c {
    } else {
        let t = s.drop_first();
        assert forall|k: int| 0 <= k < i - 1 implies t[k] != c by {
            assert(t[k] == s[k + 1]);
        }
        lemma_index_of_unique(t, c, i - 1);
    }
}

/// Where a sequence grows by one item at its end, an item that it held
/// keeps its first position, and one that it did not hold is first found
/// at the new end, or nowhere.
pub proof fn lemma_index_of_push<T>(s: Seq<T>, x: T, c: T)
    ensures
        index_of(s.push(x), c) == if index_of(s, c) < s.len() {
            index_of(s, c)
        } else if x == c {
            s.len() as int
        } else {
            s.len() as int + 1
        },
{
    lemma_index_of_is_first(s, c);
    let i = index_of(s, c);
    let t = s.push(x);
    if i < s.len() {
        lemma_index_of_unique(t, c, i);
    } else if x == c {
        lemma_index_of_unique(t, c, s.len() as int);
    } else {
        lemma_index_of_unique(t, c, s.len() as int + 1);
    }
}

/// An entry cut at its first `/`: what stands before it and what stands
/// after it. `None` where the entry holds no `/`.
pub open spec fn split_pair(entry: Seq<char>) -> Option<(Seq<char>, Seq<char>)> {
    let i = index_of(entry, '/');
    if 0 <= i < entry.len() {
        Some((entry.take(i), entry.skip(i + 1)))
    } else {
        None
    }
}

/// The pair an entry contributes to a list: one, or none where it holds
/// no `/`.
pub open spec fn entry_pairs(entry: Seq<char>) -> Seq<(Seq<char>, Seq<char>)> {
    match split_pair(entry) {
        Some(p) => seq![p],
        None => Seq::empty(),
    }
}

/// The `name/value` pairs of a comma-separated list, in the order of the
/// list. Entries without a `/` contribute nothing.
pub open spec fn pairs_of(list: Seq<char>) -> Seq<(Seq<char>, Seq<char>)>
    decreases list.len(),
{
    let i = index_of(list, ',');
    if 0 <= i < list.len() {
        entry_pairs(list.take(i)) + pairs_of(list.skip(i + 1))
    } else {
        entry_pairs(list)
    }
}

/// True where `c` occurs nowhere in `s`.
pub open spec fn lacks(s: Seq<char>, c: char) -> bool {
    forall|i: int| 0 <= i < s.len() ==> s[i] != c
}

/// A pair that can be written as one entry of a list and read back: its
/// name holds neither `,` nor `/`, and its value holds no `,`.
pub open spec fn well_formed_pair(p: (Seq<char>, Seq<char>)) -> bool {
    lacks(p.0, ',') && lacks(p.0, '/') && lacks(p.1, ',')
}

/// A pair written as an entry: name, `/`, value.
pub open spec fn entry_text(p: (Seq<char>, Seq<char>)) -> Seq<char> {
    p.0 + seq!['/'] + p.1
}

/// Pairs written as a list: their entries with a `,` between each two.
pub open spec fn list_text(pairs: Seq<(Seq<char>, Seq<char>)>) -> Seq<char>
    decreases pairs.len(),
{
    if pairs.len() == 0 {
        Seq::empty()
    } else if pairs.len() == 1 {
        entry_text(pairs[0])
    } else {
        entry_text(pairs[0]) + seq![','] + list_text(pairs.drop_first())
    }
}

/// An entry written from a well-formed pair is cut back into that pair.
pub proof fn lemma_split_pair_of_entry(p: (Seq<char>, Seq<char>))
    requires
        lacks(p.0, '/'),
    ensures
        split_pair(entry_text(p)) == Some(p),
{
    let e = entry_text(p);
    lemma_index_of_unique(e, '/', p.0.len() as int);
    assert(e.take(p.0.len() as int) =~= p.0);
    assert(e.skip(p.0.len() as int + 1) =~= p.1);
}

/// The pairs of a list whose first entry ends at the first `,`: those of
/// the entry, then those of what follows the `,`.
pub proof fn lemma_pairs_of_cons(entry: Seq<char>, rest: Seq<char>)
    requires
        lacks(entry, ','),
    ensures
        pairs_of(entry + seq![','] + rest) == entry_pairs(entry) + pairs_of(rest),
{
    let list = entry + seq![','] + rest;
    lemma_index_of_unique(list, ',', entry.len() as int);
    assert(list.take(entry.len() as int) =~= entry);
    assert(list.skip(entry.len() as int + 1) =~= rest);
}

/// Reading a list of well-formed entries gives back every pair exactly,
/// in the order in which the entries stand.
pub proof fn lemma_pairs_round_trip(pairs: Seq<(Seq<char>, Seq<char>)>)
    requires
        forall|i: int| 0 <= i < pairs.len() ==> well_formed_pair(#[trigger] pairs[i]),
    ensures
        pairs_of(list_text(pairs)) == pairs,
    decreases pairs.len(),
{
    if pairs.len() == 0 {
        let e = Seq::<char>::empty();
        assert(index_of(e, ',') == 0);
        assert(index_of(e, '/') == 0);
        assert(pairs_of(e) =~= pairs);
    } else {
        let p = pairs[0];
        let e = entry_text(p);
        assert(well_formed_pair(p));
        lemma_split_pair_of_entry(p);
        assert(lacks(e, ','));
        if pairs.len() == 1 {
            lemma_index_of_unique(e, ',', e.len() as int);
            assert(pairs_of(e) =~= pairs);
        } else {
            let tail = pairs.drop_first();
            assert forall|i: int| 0 <= i < tail.len() implies well_formed_pair(
                #[trigger] tail[i],
            ) by {
                assert(tail[i] == pairs[i + 1]);
            }
            lemma_pairs_round_trip(tail);
            lemma_pairs_of_cons(e, list_text(tail));
            assert(seq![p] + tail =~= pairs);
        }
    }
}

/// An entry without a `/` adds no pair to a list: reading goes on with
/// the entries behind it.
pub proof fn lemma_entry_without_slash_is_skipped(entry: Seq<char>, rest: Seq<char>)
    requires
        lacks(entry, ','),
        lacks(entry, '/'),
    ensures
        pairs_of(entry + seq![','] + rest) == pairs_of(rest),
{
    lemma_pairs_of_cons(entry, rest);
    lemma_index_of_unique(entry, '/', entry.len() as int);
    assert(entry_pairs(entry) + pairs_of(rest) =~= pairs_of(rest));
}

/// The views of a vector of string pairs.
pub open spec fn pair_views(v: Seq<(String, String)>) -> Seq<(Seq<char>, Seq<char>)> {
    v.map_values(|p: (String, String)| (p.0@, p.1@))
}

/// True for the ten ASCII decimal digits.
pub open spec fn is_digit(c: char) -> bool {
    48 <= c as u32 <= 57
}

/// The number a decimal digit stands for; 0 for any other character.
pub open spec fn digit_value(c: char) -> nat {
    if is_digit(c) {
        (c as u32 - 48) as nat
    } else {
        0
    }
}

/// True where every character of `s` is a decimal digit.
pub open spec fn all_digits(s: Seq<char>) -> bool {
    forall|i: int| 0 <= i < s.len() ==> is_digit(#[trigger] s[i])
}

/// The number that a run of decimal digits denotes, most significant
/// digit first.
pub open spec fn digits_value(s: Seq<char>) -> nat
    decreases s.len(),
{
    if s.len() == 0 {
        0
    } else {
        digits_value(s.drop_last()) * 10 + digit_value(s.last())
    }
}

/// The digits of a decimal numeral: the text itself, without a leading
/// `+` if it has one.
pub open spec fn numeral_digits(s: Seq<char>) -> Seq<char> {
    if s.len() > 0 && s[0] == '+' {
        s.skip(1)
    } else {
        s
    }
}

/// The value of a decimal numeral no greater than `max`: an optional `+`,
/// then one or more digits and nothing else. `None` for any other text
/// and for a value above `max`.
pub open spec fn parse_unsigned(s: Seq<char>, max: nat) -> Option<nat> {
    let d = numeral_digits(s);
    if d.len() > 0 && all_digits(d) && digits_value(d) <= max {
        Some(digits_value(d))
    } else {
        None
    }
}

/// A run of digits denotes at least what any of its prefixes denotes.
pub proof fn lemma_digits_value_grows(s: Seq<char>, k: int)
    requires
        0 <= k <= s.len(),
    ensures
        digits_value(s.take(k)) <= digits_value(s),
    decreases s.len() - k,
{
    if k == s.len() {
        assert(s.take(k) =~= s);
    } else {
        lemma_digits_value_grows(s.drop_last(), k);
        assert(s.drop_last().take(k) =~= s.take(k));
    }
}

/// `text` with every occurrence of `token` replaced by `with`, scanning
/// from the left and never looking again at what was already replaced.
/// An empty `token` occurs nowhere.
pub open spec fn substitute(text: Seq<char>, token: Seq<char>, with: Seq<char>) -> Seq<char>
    decreases text.len(),
{
    if token.len() == 0 || text.len() < token.len() {
        text
    } else if text.take(token.len() as int) == token {
        with + substitute(text.skip(token.len() as int), token, with)
    } else {
        seq![text[0]] + substitute(text.skip(1), token, with)
    }
}

/// True where `token` stands in `text` at position `i`.
pub open spec fn occurs_at(text: Seq<char>, token: Seq<char>, i: int) -> bool {
    0 <= i && i + token.len() <= text.len() && text.subrange(i, i + token.len()) == token
}

/// A text in which the token stands nowhere passes through unchanged.
pub proof fn lemma_substitute_without_token(text: Seq<char>, token: Seq<char>, with: Seq<char>)
    requires
        forall|i: int| !occurs_at(text, token, i),
    ensures
        substitute(text, token, with) == text,
    decreases text.len(),
{
    if token.len() == 0 || text.len() < token.len() {
    } else {
        assert(!occurs_at(text, token, 0));
        assert(text.take(token.len() as int) =~= text.subrange(0, 0int + token.len()));
        let rest = text.skip(1);
        assert forall|i: int| !occurs_at(rest, token, i) by {
            if 0 <= i && i + token.len() <= rest.len() {
                assert(!occurs_at(text, token, i + 1));
                assert(rest.subrange(i, i + token.len()) =~= text.subrange(
                    i + 1,
                    i + 1 + token.len(),
                ));
            }
        }
        lemma_substitute_without_token(rest, token, with);
        assert(seq![text[0]] + rest =~= text);
    }
}

/// A text that is the token and nothing else becomes the replacement.
pub proof fn lemma_substitute_token(token: Seq<char>, with: Seq<char>)
    requires
        token.len() > 0,
    ensures
        substitute(token, token, with) == with,
{
    assert(token.take(token.len() as int) =~= token);
    let rest = token.skip(token.len() as int);
    assert(rest.len() == 0);
    assert(substitute(rest, token, with) == rest);
    assert(with + rest =~= with);
}

/// The characters of `s`, in order, as a vector that can be indexed in
/// constant time.
pub fn chars_of(s: &str) -> (v: Vec<char>)
    ensures
        v@ == s@,
{
    let mut v: Vec<char> = Vec::new();
    for c in it: s.chars()
        invariant
            it.seq() == s@,
            v@ == it.seq().take(it.index() as int),
    {
        v.push(c);
    }
    v
}

/// Finds the first `c` in `s[from..to]`; returns `to` where there is none.
pub(crate) fn find_char(s: &Vec<char>, from: usize, to: usize, c: char) -> (i: usize)
    requires
        from <= to <= s.len(),
    ensures
        from <= i <= to,
        i - from == index_of(s@.subrange(from as int, to as int), c),
{
    let mut i: usize = from;
    while i < to && s[i] != c
        invariant
            from <= i <= to <= s.len(),
            forall|k: int| from <= k < i ==> s@[k] != c,
        decreases to - i,
    {
        i += 1;
    }
    proof {
        lemma_index_of_unique(s@.subrange(from as int, to as int), c, i - from);
    }
    i
}

/// Tells whether `pat` stands in `s` at position `at`.
pub fn matches_at(s: &Vec<char>, at: usize, pat: &Vec<char>) -> (r: bool)
    ensures
        r == (at + pat.len() <= s.len() && s@.subrange(at as int, at + pat.len()) == pat@),
{
    if at > s.len() || pat.len() > s.len() - at {
        return false;
    }
    let mut j: usize = 0;
    while j < pat.len()
        invariant
            j <= pat.len(),
            at + pat.len() <= s.len(),
            forall|k: int| 0 <= k < j ==> s@[at + k] == pat@[k],
        decreases pat.len() - j,
    {
        if s[at + j] != pat[j] {
            proof {
                assert(s@.subrange(at as int, at + pat.len())[j as int] != pat@[j as int]);
            }
            return false;
        }
        j += 1;
    }
    proof {
        assert(s@.subrange(at as int, at + pat.len()) =~= pat@);
    }
    true
}

/// Tells whether two texts hold the same characters.
pub fn str_equal(a: &str, b: &str) -> (r: bool)
    ensures
        r == (a@ == b@),
{
    let x = chars_of(a);
    let y = chars_of(b);
    if x.len() != y.len() {
        return false;
    }
    let r = matches_at(&x, 0, &y);
    proof {
        assert(x@.subrange(0, y.len() as int) =~= x@);
    }
    r
}

/// Tells whether `text` begins with `prefix`.
pub fn starts_with(text: &str, prefix: &str) -> (r: bool)
    ensures
        r == prefix@.is_prefix_of(text@),
{
    let t = chars_of(text);
    let p = chars_of(prefix);
    matches_at(&t, 0, &p)
}

/// Cuts a comma-separated list into its `name/value` pairs, each entry at
/// its first `/`. Entries without a `/` are passed over.
pub fn split_pairs(list: &str) -> (out: Vec<(String, String)>)
    ensures
        pair_views(out@) == pairs_of(list@),
{
    let chars = chars_of(list);
    let n = chars.len();
    let mut out: Vec<(String, String)> = Vec::new();
    let mut pos: usize = 0;
    let mut done = false;
    assert(list@.skip(0) =~= list@);
    assert(pair_views(out@) =~= Seq::empty());
    while !done
        invariant
            chars@ == list@,
            n == chars.len(),
            pos <= n,
            !done ==> pairs_of(list@) == pair_views(out@) + pairs_of(list@.skip(pos as int)),
            done ==> pairs_of(list@) == pair_views(out@),
        decreases n - pos + (if done { 0int } else { 1int }),
    {
        let end = find_char(&chars, pos, n, ',');
        let slash = find_char(&chars, pos, end, '/');
        let ghost rest = list@.skip(pos as int);
        let ghost entry = list@.subrange(pos as int, end as int);
        let ghost before = pair_views(out@);
        proof {
            assert(list@.subrange(pos as int, n as int) =~= rest);
            assert(rest.take(end - pos) =~= entry);
            if end < n {
                assert(rest.skip(end - pos + 1) =~= list@.skip(end + 1));
            } else {
                assert(entry =~= rest);
            }
        }
        if slash < end {
            let name = list.substring_char(pos, slash).to_owned();
            let value = list.substring_char(slash + 1, end).to_owned();
            proof {
                assert(entry.take(slash - pos) =~= list@.subrange(pos as int, slash as int));
                assert(entry.skip(slash - pos + 1) =~= list@.subrange(slash + 1, end as int));
            }
            out.push((name, value));
            proof {
                assert(pair_views(out@) =~= before + entry_pairs(entry));
            }
        } else {
            proof {
                assert(pair_views(out@) =~= before + entry_pairs(entry));
            }
        }
        if end < n {
            pos = end + 1;
        } else {
            done = true;
        }
    }
    out
}

/// Reads a decimal numeral no greater than `max`.
pub fn parse_bounded(s: &str, max: u32) -> (r: Option<u32>)
    ensures
        match r {
            Some(v) => parse_unsigned(s@, max as nat) == Some(v as nat),
            None => parse_unsigned(s@, max as nat) is None,
        },
{
    let chars = chars_of(s);
    let n = chars.len();
    let start: usize = if n > 0 && chars[0] == '+' { 1 } else { 0 };
    let ghost d = numeral_digits(s@);
    proof {
        assert(d =~= s@.skip(start as int));
    }
    if start == n {
        return None;
    }
    let mut acc: u64 = 0;
    let mut i: usize = start;
    while i < n
        invariant
            chars@ == s@,
            n == chars.len(),
            start <= i <= n,
            d == numeral_digits(s@),
            d == s@.skip(start as int),
            all_digits(d.take(i - start)),
            acc == digits_value(d.take(i - start)),
            acc <= max,
        decreases n - i,
    {
        let c = chars[i];
        let code = c as u32;
        if code < 48 || code > 57 {
            proof {
                assert(!is_digit(d[i - start]));
            }
            return None;
        }
        let next: u64 = acc * 10 + (code - 48) as u64;
        proof {
            let longer = d.take(i - start + 1);
            assert(longer.drop_last() =~= d.take(i - start));
            assert(longer.last() == c);
            assert(digits_value(longer) == next);
            assert forall|k: int| 0 <= k < longer.len() implies is_digit(#[trigger] longer[k]) by {
                if k < i - start {
                    assert(longer[k] == d.take(i - start)[k]);
                }
            }
        }
        if next > max as u64 {
            proof {
                lemma_digits_value_grows(d, i - start + 1);
            }
            return None;
        }
        acc = next;
        i += 1;
    }
    proof {
        assert(d.take(i - start) =~= d);
    }
    Some(acc as u32)
}

/// Reads a decimal numeral that fits 32 bits.
pub fn parse_u32(s: &str) -> (r: Option<u32>)
    ensures
        match r {
            Some(v) => parse_unsigned(s@, u32::MAX as nat) == Some(v as nat),
            None => parse_unsigned(s@, u32::MAX as nat) is None,
        },
{
    parse_bounded(s, u32::MAX)
}

/// Reads a decimal numeral that fits 16 bits.
pub fn parse_u16(s: &str) -> (r: Option<u16>)
    ensures
        match r {
            Some(v) => parse_unsigned(s@, u16::MAX as nat) == Some(v as nat),
            None => parse_unsigned(s@, u16::MAX as nat) is None,
        },
{
    match parse_bounded(s, 65535) {
        Some(v) => Some(v as u16),
        None => None,
    }
}

/// Replaces every occurrence of `token` in `text` by `with`.
pub fn replace_all(text: &str, token: &str, with: &str) -> (out: String)
    ensures
        out@ == substitute(text@, token@, with@),
{
    let t = chars_of(text);
    let p = chars_of(token);
    let n = t.len();
    let m = p.len();
    let mut out = String::new();
    if m == 0 {
        out.append(text);
        assert(out@ =~= text@);
        return out;
    }
    let mut seg: usize = 0;
    let mut i: usize = 0;
    assert(out@ + text@.subrange(0, 0) + text@.skip(0) =~= text@);
    while n - i >= m
        invariant
            t@ == text@,
            p@ == token@,
            n == t.len(),
            m == p.len(),
            m > 0,
            seg <= i <= n,
            substitute(text@, token@, with@) == out@ + text@.subrange(seg as int, i as int)
                + substitute(text@.skip(i as int), token@, with@),
        decreases n - i,
    {
        let ghost rest = text@.skip(i as int);
        let ghost before = out@;
        proof {
            assert(rest.take(m as int) =~= text@.subrange(i as int, i + m));
        }
        if matches_at(&t, i, &p) {
            out.append(text.substring_char(seg, i));
            out.append(with);
            proof {
                assert(rest.skip(m as int) =~= text@.skip(i + m));
                assert(out@ + text@.subrange(i + m, i + m) =~= before + text@.subrange(
                    seg as int,
                    i as int,
                ) + with@);
                assert(before + text@.subrange(seg as int, i as int) + (with@ + substitute(
                    rest.skip(m as int),
                    token@,
                    with@,
                )) =~= before + text@.subrange(seg as int, i as int) + with@ + substitute(
                    rest.skip(m as int),
                    token@,
                    with@,
                ));
            }
            i += m;
            seg = i;
        } else {
            proof {
                assert(rest.skip(1) =~= text@.skip(i + 1));
                assert(text@.subrange(seg as int, i as int) + seq![rest[0]] =~= text@.subrange(
                    seg as int,
                    i + 1,
                ));
                assert(before + text@.subrange(seg as int, i as int) + (seq![rest[0]] + substitute(
                    rest.skip(1),
                    token@,
                    with@,
                )) =~= before + text@.subrange(seg as int, i + 1) + substitute(
                    rest.skip(1),
                    token@,
                    with@,
                ));
            }
            i += 1;
        }
    }
    out.append(text.substring_char(seg, n));
    proof {
        assert(text@.subrange(seg as int, i as int) + text@.skip(i as int) =~= text@.subrange(
            seg as int,
            n as int,
        ));
    }
    out
}

} // verus!
