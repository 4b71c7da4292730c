//! Text handling for the checks' names and messages.
//!
//! Text is held as `Vec<char>` while it is examined or built, so that each
//! step can be stated over `Seq<char>`.
use vstd::prelude::*;

verus! {

/// The characters of `s`.
pub fn chars_of(s: &str) -> (v: Vec<char>)
    ensures
        v@ == s@,
{
    let n: usize = s.unicode_len();
    let mut v: Vec<char> = Vec::new();
    let mut i: usize = 0;
    while i < n
        invariant
            n == s@.len(),
            i <= n,
            v@ == s@.take(i as int),
        decreases n - i,
    {
        v.push(s.get_char(i));
        i = i + 1;
        proof {
            assert(v@ =~= s@.take(i as int));
        }
    }
    proof {
        assert(s@.take(n as int) =~= s@);
    }
    v
}

/// `std`'s collection of characters into a `String`.
#[verifier::external_body]
pub(crate) fn string_of(v: &Vec<char>) -> (s: String)
    ensures
        s@ == v@,
{
    v.iter().collect()
}

/// Appends the characters of `s` to `v`.
pub fn push_str(v: &mut Vec<char>, s: &str)
    ensures
        final(v)@ == old(v)@ + s@,
{
    let n: usize = s.unicode_len();
    let mut i: usize = 0;
    let ghost start = v@;
    while i < n
        invariant
            n == s@.len(),
            i <= n,
            v@ == start + s@.take(i as int),
        decreases n - i,
    {
        v.push(s.get_char(i));
        i = i + 1;
        proof {
            assert(v@ =~= start + s@.take(i as int));
        }
    }
    proof {
        assert(s@.take(n as int) =~= s@);
    }
}

/// Appends the characters of `w` to `v`.
pub fn push_chars(v: &mut Vec<char>, w: &Vec<char>)
    ensures
        final(v)@ == old(v)@ + w@,
{
    let mut i: usize = 0;
    let ghost start = v@;
    while i < w.len()
        invariant
            i <= w.len(),
            v@ == start + w@.take(i as int),
        decreases w.len() - i,
    {
        v.push(w[i]);
        i = i + 1;
        proof {
            assert(v@ =~= start + w@.take(i as int));
        }
    }
    proof {
        assert(w@.take(w@.len() as int) =~= w@);
    }
}

/// The decimal digit `d`.
pub open spec fn digit_char(d: nat) -> char {
    if d == 0 {
        '0'
    } else if d == 1 {
        '1'
    } else if d == 2 {
        '2'
    } else if d == 3 {
        '3'
    } else if d == 4 {
        '4'
    } else if d == 5 {
        '5'
    } else if d == 6 {
        '6'
    } else if d == 7 {
        '7'
    } else if d == 8 {
        '8'
    } else {
        '9'
    }
}

/// The decimal representation of `n`, as `Display` writes an unsigned integer.
pub open spec fn decimal(n: nat) -> Seq<char>
    decreases n,
{
    if n < 10 {
        seq![digit_char(n)]
    } else {
        decimal(n / 10).push(digit_char(n % 10))
    }
}

/// The decimal representation of a signed integer, as `Display` writes it.
pub open spec fn signed_decimal(n: int) -> Seq<char> {
    if n < 0 {
        seq!['-'] + decimal((-n) as nat)
    } else {
        decimal(n as nat)
    }
}

fn digit(d: u64) -> (c: char)
    requires
        d < 10,
    ensures
        c == digit_char(d as nat),
{
    if d == 0 {
        '0'
    } else if d == 1 {
        '1'
    } else if d == 2 {
        '2'
    } else if d == 3 {
        '3'
    } else if d == 4 {
        '4'
    } else if d == 5 {
        '5'
    } else if d == 6 {
        '6'
    } else if d == 7 {
        '7'
    } else if d == 8 {
        '8'
    } else {
        '9'
    }
}

/// Appends the decimal representation of `n` to `v`.
pub fn push_decimal(v: &mut Vec<char>, n: u64)
    ensures
        final(v)@ == old(v)@ + decimal(n as nat),
    decreases n,
{
    if n >= 10 {
        push_decimal(v, n / 10);
    }
    v.push(digit(n % 10));
    proof {
        if n >= 10 {
            assert(decimal(n as nat) == decimal((n / 10) as nat).push(digit_char((n % 10) as nat)));
        }
        assert(final(v)@ =~= old(v)@ + decimal(n as nat));
    }
}

/// Appends the decimal representation of the signed `n` to `v`.
pub fn push_signed_decimal(v: &mut Vec<char>, n: i64)
    ensures
        final(v)@ == old(v)@ + signed_decimal(n as int),
{
    if n < 0 {
        v.push('-');
        let m: u64 = if n == i64::MIN {
            9223372036854775808u64
        } else {
            (-n) as u64
        };
        push_decimal(v, m);
        proof {
            assert(final(v)@ =~= old(v)@ + signed_decimal(n as int));
        }
    } else {
        push_decimal(v, n as u64);
    }
}

/// Whether `v` holds exactly the characters of `s`.
pub fn eq_str(v: &Vec<char>, s: &str) -> (b: bool)
    ensures
        b == (v@ == s@),
{
    let n: usize = s.unicode_len();
    if n != v.len() {
        return false;
    }
    let mut i: usize = 0;
    while i < n
        invariant
            n == s@.len(),
            n == v@.len(),
            i <= n,
            forall|k: int| 0 <= k < i ==> v@[k] == s@[k],
        decreases n - i,
    {
        if v[i] != s.get_char(i) {
            return false;
        }
        i = i + 1;
    }
    proof {
        assert(v@ =~= s@);
    }
    true
}

/// Whether `a` and `b` hold the same characters.
pub fn eq_chars(a: &Vec<char>, b: &Vec<char>) -> (r: bool)
    ensures
        r == (a@ == b@),
{
    if a.len() != b.len() {
        return false;
    }
    let mut i: usize = 0;
    while i < a.len()
        invariant
            a@.len() == b@.len(),
            i <= a.len(),
            forall|k: int| 0 <= k < i ==> a@[k] == b@[k],
        decreases a.len() - i,
    {
        if a[i] != b[i] {
            return false;
        }
        i = i + 1;
    }
    proof {
        assert(a@ =~= b@);
    }
    true
}

/// Whether `p` occurs in `s` starting at position `i`.
pub open spec fn occurs_at(s: Seq<char>, p: Seq<char>, i: int) -> bool {
    0 <= i && i + p.len() <= s.len() && s.subrange(i, i + p.len()) == p
}

/// Whether `p` occurs in `s` at position `i`.
pub fn matches_at(s: &Vec<char>, p: &Vec<char>, i: usize) -> (b: bool)
    ensures
        b == occurs_at(s@, p@, i as int),
{
    if i > s.len() || p.len() > s.len() - i {
        return false;
    }
    let mut k: usize = 0;
    while k < p.len()
        invariant
            i + p@.len() <= s@.len(),
            s@.len() == s.len(),
            k <= p.len(),
            forall|j: int| 0 <= j < k ==> s@[i + j] == p@[j],
        decreases p.len() - k,
    {
        if s[i + k] != p[k] {
            proof {
                assert(s@.subrange(i as int, i + p@.len())[k as int] != p@[k as int]);
            }
            return false;
        }
        k = k + 1;
    }
    proof {
        assert(s@.subrange(i as int, i + p@.len()) =~= p@);
    }
    true
}

/// Whether `s` contains `p`, as `str::contains` answers.
pub open spec fn contains_seq(s: Seq<char>, p: Seq<char>) -> bool {
    exists|i: int| occurs_at(s, p, i)
}

/// Whether `s` contains `p`.
pub fn contains_str(s: &Vec<char>, p: &str) -> (b: bool)
    ensures
        b == contains_seq(s@, p@),
{
    let pv = chars_of(p);
    if pv.len() == 0 {
        proof {
            assert(s@.subrange(0, 0) =~= p@);
            assert(occurs_at(s@, p@, 0));
        }
        return true;
    }
    if pv.len() > s.len() {
        proof {
            assert forall|i: int| !occurs_at(s@, p@, i) by {}
        }
        return false;
    }
    let last: usize = s.len() - pv.len();
    let mut i: usize = 0;
    while i <= last
        invariant
            pv@ == p@,
            pv@.len() > 0,
            last + pv@.len() == s@.len(),
            last < s.len(),
            i <= last + 1,
            forall|j: int| 0 <= j < i ==> !occurs_at(s@, p@, j),
        decreases last + 1 - i,
    {
        if matches_at(s, &pv, i) {
            return true;
        }
        i = i + 1;
    }
    proof {
        assert forall|j: int| !occurs_at(s@, p@, j) by {
            if 0 <= j && j + p@.len() <= s@.len() {
                assert(j < i);
            }
        }
    }
    false
}

/// Whether `s` ends with `suffix`, as `str::ends_with` answers.
pub open spec fn ends_with_seq(s: Seq<char>, suffix: Seq<char>) -> bool {
    suffix.len() <= s.len() && s.subrange(s.len() - suffix.len(), s.len() as int) == suffix
}

/// Whether `s` ends with `suffix`.
pub fn ends_with_str(s: &Vec<char>, suffix: &str) -> (b: bool)
    ensures
        b == ends_with_seq(s@, suffix@),
{
    let sv = chars_of(suffix);
    if sv.len() > s.len() {
        return false;
    }
    let r = matches_at(s, &sv, s.len() - sv.len());
    r
}

/// `s` with each non-overlapping occurrence of `pat`, found from the left,
/// replaced by `rep`, as `str::replace` does for a non-empty pattern.
pub open spec fn replace_all(s: Seq<char>, pat: Seq<char>, rep: Seq<char>) -> Seq<char>
    decreases s.len(),
{
    if s.len() == 0 {
        s
    } else if pat.len() > 0 && pat.len() <= s.len() && s.take(pat.len() as int) == pat {
        rep + replace_all(s.skip(pat.len() as int), pat, rep)
    } else {
        seq![s[0]] + replace_all(s.skip(1), pat, rep)
    }
}

/// `s` with each non-overlapping occurrence of `pat` replaced by `rep`.
pub fn replace(s: &Vec<char>, pat: &str, rep: &str) -> (r: Vec<char>)
    requires
        pat@.len() > 0,
    ensures
        r@ == replace_all(s@, pat@, rep@),
{
    let p = chars_of(pat);
    let rv = chars_of(rep);
    let mut out: Vec<char> = Vec::new();
    let mut i: usize = 0;
    proof {
        assert(s@.skip(0) =~= s@);
        assert(out@ + replace_all(s@.skip(0), p@, rv@) =~= replace_all(s@, p@, rv@));
    }
    while i < s.len()
        invariant
            p@ == pat@,
            rv@ == rep@,
            p@.len() > 0,
            i <= s.len(),
            out@ + replace_all(s@.skip(i as int), p@, rv@) == replace_all(s@, p@, rv@),
        decreases s.len() - i,
    {
        let ghost rest = s@.skip(i as int);
        if matches_at(s, &p, i) {
            proof {
                assert(rest.take(p@.len() as int) =~= s@.subrange(i as int, i + p@.len()));
                assert(rest.skip(p@.len() as int) =~= s@.skip(i + p@.len()));
                assert(replace_all(rest, p@, rv@) == rv@ + replace_all(
                    rest.skip(p@.len() as int),
                    p@,
                    rv@,
                ));
            }
            push_chars(&mut out, &rv);
            i = i + p.len();
            proof {
                assert(out@ + replace_all(s@.skip(i as int), p@, rv@) =~= replace_all(s@, p@, rv@));
            }
        } else {
            proof {
                if p@.len() <= rest.len() {
                    assert(rest.take(p@.len() as int) =~= s@.subrange(i as int, i + p@.len()));
                }
                assert(rest.skip(1) =~= s@.skip(i + 1));
                assert(replace_all(rest, p@, rv@) == seq![rest[0]] + replace_all(
                    rest.skip(1),
                    p@,
                    rv@,
                ));
            }
            out.push(s[i]);
            i = i + 1;
            proof {
                assert(out@ + replace_all(s@.skip(i as int), p@, rv@) =~= replace_all(s@, p@, rv@));
            }
        }
    }
    proof {
        assert(s@.skip(i as int) =~= Seq::<char>::empty());
        assert(out@ =~= out@ + replace_all(s@.skip(i as int), p@, rv@));
    }
    out
}

/// The pieces of `s` between the occurrences of `sep`, as `str::split`
/// yields them for a character separator.
pub open spec fn split_on(s: Seq<char>, sep: char) -> Seq<Seq<char>>
    decreases s.len(),
{
    if s.len() == 0 {
        seq![Seq::<char>::empty()]
    } else {
        let prev = split_on(s.drop_last(), sep);
        if s.last() == sep {
            prev.push(Seq::<char>::empty())
        } else {
            prev.update(prev.len() - 1, prev.last().push(s.last()))
        }
    }
}

proof fn lemma_split_nonempty(s: Seq<char>, sep: char)
    ensures
        split_on(s, sep).len() >= 1,
    decreases s.len(),
{
    if s.len() > 0 {
        lemma_split_nonempty(s.drop_last(), sep);
    }
}

/// The views of a vector of character vectors.
pub open spec fn views(v: Seq<Vec<char>>) -> Seq<Seq<char>> {
    v.map_values(|x: Vec<char>| x@)
}

/// The pieces of `s` between the occurrences of `sep`.
pub fn split(s: &Vec<char>, sep: char) -> (parts: Vec<Vec<char>>)
    ensures
        views(parts@) == split_on(s@, sep),
{
    let mut parts: Vec<Vec<char>> = Vec::new();
    let mut cur: Vec<char> = Vec::new();
    let mut i: usize = 0;
    proof {
        assert(s@.take(0) =~= Seq::<char>::empty());
        assert(views(parts@).push(cur@) =~= split_on(s@.take(0), sep));
    }
    while i < s.len()
        invariant
            i <= s.len(),
            views(parts@).push(cur@) == split_on(s@.take(i as int), sep),
        decreases s.len() - i,
    {
        let c = s[i];
        proof {
            let t = s@.take(i + 1);
            assert(t.drop_last() =~= s@.take(i as int));
            assert(t.last() == c);
            lemma_split_nonempty(s@.take(i as int), sep);
        }
        if c == sep {
            let done = cur;
            parts.push(done);
            cur = Vec::new();
            proof {
                assert(views(parts@).push(cur@) =~= split_on(s@.take(i + 1), sep));
            }
        } else {
            cur.push(c);
            proof {
                assert(views(parts@).push(cur@) =~= split_on(s@.take(i + 1), sep));
            }
        }
        i = i + 1;
    }
    proof {
        assert(s@.take(s@.len() as int) =~= s@);
    }
    parts.push(cur);
    proof {
        assert(views(parts@) =~= split_on(s@, sep));
    }
    parts
}

/// `items` joined with `sep` between each two, as `[T]::join` does.
pub open spec fn join(items: Seq<Seq<char>>, sep: Seq<char>) -> Seq<char>
    decreases items.len(),
{
    if items.len() == 0 {
        Seq::<char>::empty()
    } else if items.len() == 1 {
        items[0]
    } else {
        join(items.drop_last(), sep) + sep + items.last()
    }
}

/// `items` joined with `sep` between each two.
pub fn join_chars(items: &Vec<Vec<char>>, sep: &str) -> (r: Vec<char>)
    ensures
        r@ == join(views(items@), sep@),
{
    let mut r: Vec<char> = Vec::new();
    let mut i: usize = 0;
    while i < items.len()
        invariant
            i <= items.len(),
            r@ == join(views(items@).take(i as int), sep@),
        decreases items.len() - i,
    {
        proof {
            let t = views(items@).take(i + 1);
            assert(t.drop_last() =~= views(items@).take(i as int));
            assert(t.last() == items@[i as int]@);
        }
        if i > 0 {
            push_str(&mut r, sep);
        }
        push_chars(&mut r, &items[i]);
        i = i + 1;
        proof {
            assert(r@ =~= join(views(items@).take(i as int), sep@));
        }
    }
    proof {
        assert(views(items@).take(items@.len() as int) =~= views(items@));
    }
    r
}

/// How `Debug` writes one printable ASCII character inside a quoted string.
pub open spec fn escape_ascii_char(c: char) -> Seq<char> {
    if c == '"' || c == '\\' {
        seq!['\\', c]
    } else {
        seq![c]
    }
}

/// The escaped body of a printable ASCII string.
pub open spec fn escape_ascii(s: Seq<char>) -> Seq<char>
    decreases s.len(),
{
    if s.len() == 0 {
        s
    } else {
        escape_ascii(s.drop_last()) + escape_ascii_char(s.last())
    }
}

/// How `Debug` writes a string of printable ASCII characters: in double
/// quotes, with `"` and `\` escaped by a backslash.
pub open spec fn debug_ascii(s: Seq<char>) -> Seq<char> {
    seq!['"'] + escape_ascii(s) + seq!['"']
}

/// Appends the `Debug` form of the printable ASCII string `s` to `v`.
pub fn push_debug_ascii(v: &mut Vec<char>, s: &Vec<char>)
    ensures
        final(v)@ == old(v)@ + debug_ascii(s@),
{
    let ghost start = v@;
    v.push('"');
    let mut i: usize = 0;
    while i < s.len()
        invariant
            i <= s.len(),
            v@ == start + seq!['"'] + escape_ascii(s@.take(i as int)),
        decreases s.len() - i,
    {
        let c = s[i];
        proof {
            let t = s@.take(i + 1);
            assert(t.drop_last() =~= s@.take(i as int));
            assert(t.last() == c);
        }
        if c == '"' || c == '\\' {
            v.push('\\');
        }
        v.push(c);
        i = i + 1;
        proof {
            assert(v@ =~= start + seq!['"'] + escape_ascii(s@.take(i as int)));
        }
    }
    v.push('"');
    proof {
        assert(s@.take(s@.len() as int) =~= s@);
        assert(v@ =~= start + debug_ascii(s@));
    }
}

/// Whether every character of `s` is ASCII.
pub open spec fn is_ascii_text(s: Seq<char>) -> bool {
    forall|i: int| 0 <= i < s.len() ==> (#[trigger] s[i]) as u32 <= 0x7f
}

/// An ASCII uppercase letter as its lowercase letter; any other character
/// as it is.
pub open spec fn ascii_lower_char(c: char) -> char {
    if 'A' <= c && c <= 'Z' {
        ((c as u32) + 32) as char
    } else {
        c
    }
}

/// `s` with each ASCII uppercase letter made lowercase.
pub open spec fn ascii_lower(s: Seq<char>) -> Seq<char> {
    s.map_values(|c: char| ascii_lower_char(c))
}

/// The characters of `s`, each ASCII uppercase letter made lowercase.
pub fn ascii_lowercase(s: &str) -> (v: Vec<char>)
    ensures
        v@ == ascii_lower(s@),
{
    let n: usize = s.unicode_len();
    let mut v: Vec<char> = Vec::new();
    let mut i: usize = 0;
    while i < n
        invariant
            n == s@.len(),
            i <= n,
            v@ == ascii_lower(s@.take(i as int)),
        decreases n - i,
    {
        let c = s.get_char(i);
        let d = if 'A' <= c && c <= 'Z' {
            ((c as u8) + 32u8) as char
        } else {
            c
        };
        proof {
            assert(d == ascii_lower_char(c));
        }
        v.push(d);
        i = i + 1;
        proof {
            assert(v@ =~= ascii_lower(s@.take(i as int)));
        }
    }
    proof {
        assert(s@.take(n as int) =~= s@);
    }
    v
}

/// The lowercase form of a string, as `str::to_lowercase` computes it
/// (the Unicode lowercase mapping of each character, in context).
pub uninterp spec fn lowercase(s: Seq<char>) -> Seq<char>;

/// `str::to_lowercase`: the Unicode lowercase form of `s`. The contract
/// names the result and states the one part of the Unicode mapping that
/// the checks lean on: on ASCII text it maps `A`-`Z` to `a`-`z` and keeps
/// every other character. The mapping tables beyond ASCII are not restated
/// here.
#[verifier::external_body]
pub(crate) fn to_lowercase(s: &str) -> (r: String)
    ensures
        r@ == lowercase(s@),
        is_ascii_text(s@) ==> r@ == ascii_lower(s@),
{
    s.to_lowercase()
}

} // verus!
