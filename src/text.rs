//! String operations over character sequences, each stated against a spec
//! function on `Seq<char>`.

use vstd::prelude::*;
use vstd::string::*;

verus! {

/// Unicode's `White_Space` characters, which `str::trim` removes.
pub open spec fn is_ws(c: char) -> bool {
    ||| c == '\t'
    ||| c == '\n'
    ||| c == '\u{0B}'
    ||| c == '\u{0C}'
    ||| c == '\r'
    ||| c == ' '
    ||| c == '\u{85}'
    ||| c == '\u{A0}'
    ||| c == '\u{1680}'
    ||| c == '\u{2000}'
    ||| c == '\u{2001}'
    ||| c == '\u{2002}'
    ||| c == '\u{2003}'
    ||| c == '\u{2004}'
    ||| c == '\u{2005}'
    ||| c == '\u{2006}'
    ||| c == '\u{2007}'
    ||| c == '\u{2008}'
    ||| c == '\u{2009}'
    ||| c == '\u{200A}'
    ||| c == '\u{2028}'
    ||| c == '\u{2029}'
    ||| c == '\u{202F}'
    ||| c == '\u{205F}'
    ||| c == '\u{3000}'
}

/// `s` without its leading white space.
pub open spec fn trim_start(s: Seq<char>) -> Seq<char>
    decreases s.len(),
{
    if s.len() > 0 && is_ws(s[0]) {
        trim_start(s.drop_first())
    } else {
        s
    }
}

/// `s` without its trailing white space.
pub open spec fn trim_end(s: Seq<char>) -> Seq<char>
    decreases s.len(),
{
    if s.len() > 0 && is_ws(s.last()) {
        trim_end(s.drop_last())
    } else {
        s
    }
}

/// `s` without leading or trailing white space.
pub open spec fn trimmed(s: Seq<char>) -> Seq<char> {
    trim_end(trim_start(s))
}

/// Whether `s` begins with `p`.
pub open spec fn has_prefix(s: Seq<char>, p: Seq<char>) -> bool {
    p.len() <= s.len() && s.subrange(0, p.len() as int) == p
}

/// Whether `p` occurs in `s` at position `i`.
pub open spec fn occurs_at(s: Seq<char>, p: Seq<char>, i: int) -> bool {
    0 <= i && i + p.len() <= s.len() && s.subrange(i, i + p.len()) == p
}

/// Whether `p` occurs anywhere in `s`.
pub open spec fn has_infix(s: Seq<char>, p: Seq<char>) -> bool {
    exists|i: int| occurs_at(s, p, i)
}

/// Whether `a` and `b` hold the same characters.
pub fn same_text(a: &str, b: &str) -> (r: bool)
    ensures
        r == (a@ == b@),
{
    let n = a.unicode_len();
    if n != b.unicode_len() {
        return false;
    }
    let mut i: usize = 0;
    while i < n
        invariant
            n == a@.len(),
            n == b@.len(),
            i <= n,
            forall|j: int| 0 <= j < i ==> a@[j] == b@[j],
        decreases n - i,
    {
        if a.get_char(i) != b.get_char(i) {
            return false;
        }
        i += 1;
    }
    assert(a@ =~= b@);
    true
}

/// Whether `c` is white space.
pub fn is_space(c: char) -> (r: bool)
    ensures
        r == is_ws(c),
{
    c == '\t' || c == '\n' || c == '\u{0B}' || c == '\u{0C}' || c == '\r' || c == ' ' || c
        == '\u{85}' || c == '\u{A0}' || c == '\u{1680}' || c == '\u{2000}' || c == '\u{2001}' || c
        == '\u{2002}' || c == '\u{2003}' || c == '\u{2004}' || c == '\u{2005}' || c == '\u{2006}'
        || c == '\u{2007}' || c == '\u{2008}' || c == '\u{2009}' || c == '\u{200A}' || c
        == '\u{2028}' || c == '\u{2029}' || c == '\u{202F}' || c == '\u{205F}' || c == '\u{3000}'
}

/// `s` without leading or trailing white space.
pub fn trim(s: &str) -> (r: &str)
    ensures
        r@ == trimmed(s@),
{
    let n = s.unicode_len();
    let mut a: usize = 0;
    assert(s@.subrange(0, n as int) =~= s@);
    while a < n && is_space(s.get_char(a))
        invariant
            n == s@.len(),
            a <= n,
            trim_start(s@) == trim_start(s@.subrange(a as int, n as int)),
        decreases n - a,
    {
        assert(s@.subrange(a as int, n as int).drop_first() =~= s@.subrange(a + 1, n as int));
        a += 1;
    }
    assert(trim_start(s@) == s@.subrange(a as int, n as int));
    let mut b: usize = n;
    while b > a && is_space(s.get_char(b - 1))
        invariant
            n == s@.len(),
            a <= b <= n,
            trim_start(s@) == s@.subrange(a as int, n as int),
            trimmed(s@) == trim_end(s@.subrange(a as int, b as int)),
        decreases b - a,
    {
        assert(s@.subrange(a as int, b as int).drop_last() =~= s@.subrange(a as int, b - 1));
        b -= 1;
    }
    s.substring_char(a, b)
}

/// Whether `p` occurs in `s` at character position `i`.
fn occurs_at_exec(s: &str, p: &str, i: usize) -> (r: bool)
    requires
        i + p@.len() <= s@.len(),
    ensures
        r == occurs_at(s@, p@, i as int),
{
    let n = s.unicode_len();
    let m = p.unicode_len();
    let mut k: usize = 0;
    while k < m
        invariant
            n == s@.len(),
            m == p@.len(),
            i + m <= s@.len(),
            k <= m,
            forall|j: int| 0 <= j < k ==> s@[i + j] == p@[j],
        decreases m - k,
    {
        if s.get_char(i + k) != p.get_char(k) {
            assert(s@.subrange(i as int, i + m)[k as int] != p@[k as int]);
            return false;
        }
        k += 1;
    }
    assert(s@.subrange(i as int, i + m) =~= p@);
    true
}

/// Whether `s` begins with `p`.
pub fn starts_with_text(s: &str, p: &str) -> (r: bool)
    ensures
        r == has_prefix(s@, p@),
{
    if p.unicode_len() > s.unicode_len() {
        return false;
    }
    occurs_at_exec(s, p, 0)
}

/// Whether `p` occurs anywhere in `s`.
pub fn contains_text(s: &str, p: &str) -> (r: bool)
    ensures
        r == has_infix(s@, p@),
{
    let n = s.unicode_len();
    let m = p.unicode_len();
    if m > n {
        return false;
    }
    if m == 0 {
        assert(s@.subrange(0, 0) =~= p@);
        assert(occurs_at(s@, p@, 0));
        return true;
    }
    let mut i: usize = 0;
    while i <= n - m
        invariant
            n == s@.len(),
            m == p@.len(),
            1 <= m <= n,
            i <= n - m + 1,
            forall|j: int| 0 <= j < i ==> !occurs_at(s@, p@, j),
        decreases n - m + 1 - i,
    {
        if occurs_at_exec(s, p, i) {
            return true;
        }
        i += 1;
    }
    false
}

/// Relies on String::push: the character is appended.
#[verifier::external_body]
pub fn push_char(s: &mut String, c: char)
    ensures
        final(s)@ == old(s)@.push(c),
{
    s.push(c);
}

} // verus!

verus! {

/// `a` followed by `b`.
pub fn concat_text(a: &str, b: &str) -> (r: String)
    ensures
        r@ == a@ + b@,
{
    let mut s = String::from_str(a);
    s.append(b);
    s
}

/// The decimal digit for `d` below ten.
pub open spec fn digit(d: nat) -> char {
    seq!['0', '1', '2', '3', '4', '5', '6', '7', '8', '9'][d as int]
}

/// The decimal numeral of `n`, without leading zeros.
pub open spec fn decimal(n: nat) -> Seq<char>
    decreases n,
{
    if n < 10 {
        seq![digit(n)]
    } else {
        decimal(n / 10).push(digit(n % 10))
    }
}

fn digit_exec(d: usize) -> (r: char)
    requires
        d < 10,
    ensures
        r == digit(d as nat),
{
    let digits = ['0', '1', '2', '3', '4', '5', '6', '7', '8', '9'];
    assert(digits@ == seq!['0', '1', '2', '3', '4', '5', '6', '7', '8', '9']);
    digits[d]
}

/// The decimal numeral of `n`.
pub fn decimal_text(n: usize) -> (r: String)
    ensures
        r@ == decimal(n as nat),
    decreases n,
{
    if n < 10 {
        let mut s = String::new();
        push_char(&mut s, digit_exec(n));
        assert(s@ =~= seq![digit(n as nat)]);
        s
    } else {
        let mut s = decimal_text(n / 10);
        push_char(&mut s, digit_exec(n % 10));
        s
    }
}

/// What `str::to_lowercase` makes of a string: each character mapped by
/// Unicode's lower-case mapping.
pub uninterp spec fn lowercase_of(s: Seq<char>) -> Seq<char>;

/// Relies on str::to_lowercase: the result depends on the characters alone,
/// and the empty string stays empty.
#[verifier::external_body]
pub fn lowercase(s: &str) -> (r: String)
    ensures
        r@ == lowercase_of(s@),
        s@.len() == 0 ==> r@.len() == 0,
{
    s.to_lowercase()
}

} // verus!

verus! {

/// Lexicographic order of character sequences by code point, the order of
/// `str`'s `Ord`.
pub open spec fn text_le(a: Seq<char>, b: Seq<char>) -> bool
    decreases a.len(),
{
    if a.len() == 0 {
        true
    } else if b.len() == 0 {
        false
    } else if a[0] != b[0] {
        a[0] < b[0]
    } else {
        text_le(a.drop_first(), b.drop_first())
    }
}

/// Any two sequences are ordered one way or the other.
pub proof fn lemma_text_le_total(a: Seq<char>, b: Seq<char>)
    ensures
        text_le(a, b) || text_le(b, a),
    decreases a.len(),
{
    if a.len() > 0 && b.len() > 0 && a[0] == b[0] {
        lemma_text_le_total(a.drop_first(), b.drop_first());
    }
}

/// Whether `a` comes before `b` or equals it in `text_le` order.
pub fn text_le_exec(a: &str, b: &str) -> (r: bool)
    ensures
        r == text_le(a@, b@),
{
    let n = a.unicode_len();
    let m = b.unicode_len();
    let mut i: usize = 0;
    assert(a@.subrange(0, n as int) =~= a@);
    assert(b@.subrange(0, m as int) =~= b@);
    while i < n && i < m && a.get_char(i) == b.get_char(i)
        invariant
            n == a@.len(),
            m == b@.len(),
            i <= n,
            i <= m,
            text_le(a@, b@) == text_le(a@.subrange(i as int, n as int), b@.subrange(i as int, m as int)),
        decreases n - i,
    {
        assert(a@.subrange(i as int, n as int).drop_first() =~= a@.subrange(i + 1, n as int));
        assert(b@.subrange(i as int, m as int).drop_first() =~= b@.subrange(i + 1, m as int));
        i += 1;
    }
    if i == n {
        true
    } else if i == m {
        false
    } else {
        assert(a@.subrange(i as int, n as int)[0] == a@[i as int]);
        assert(b@.subrange(i as int, m as int)[0] == b@[i as int]);
        a.get_char(i) < b.get_char(i)
    }
}

} // verus!

verus! {

/// The characters of `s` before its first white space.
pub open spec fn leading_word(s: Seq<char>) -> Seq<char>
    decreases s.len(),
{
    if s.len() == 0 || is_ws(s[0]) {
        Seq::empty()
    } else {
        seq![s[0]] + leading_word(s.drop_first())
    }
}

/// The first white-space separated word of `s`, if it has one.
pub open spec fn first_word(s: Seq<char>) -> Option<Seq<char>> {
    if trim_start(s).len() == 0 {
        None
    } else {
        Some(leading_word(trim_start(s)))
    }
}

/// What follows the last `/` of `w`; all of `w` when it has none.
pub open spec fn last_segment(w: Seq<char>) -> Seq<char>
    decreases w.len(),
{
    if w.len() == 0 {
        w
    } else if w.last() == '/' {
        Seq::empty()
    } else {
        last_segment(w.drop_last()).push(w.last())
    }
}

/// The first white-space separated word of `s`, if it has one.
pub fn first_word_of(s: &str) -> (r: Option<&str>)
    ensures
        match first_word(s@) {
            Some(w) => r is Some && r->Some_0@ == w,
            None => r is None,
        },
{
    let n = s.unicode_len();
    let mut a: usize = 0;
    assert(s@.subrange(0, n as int) =~= s@);
    while a < n && is_space(s.get_char(a))
        invariant
            n == s@.len(),
            a <= n,
            trim_start(s@) == trim_start(s@.subrange(a as int, n as int)),
        decreases n - a,
    {
        assert(s@.subrange(a as int, n as int).drop_first() =~= s@.subrange(a + 1, n as int));
        a += 1;
    }
    assert(trim_start(s@) == s@.subrange(a as int, n as int));
    if a == n {
        return None;
    }
    let mut b: usize = a;
    while b < n && !is_space(s.get_char(b))
        invariant
            n == s@.len(),
            a <= b <= n,
            leading_word(s@.subrange(a as int, n as int)) == s@.subrange(a as int, b as int)
                + leading_word(s@.subrange(b as int, n as int)),
        decreases n - b,
    {
        assert(s@.subrange(b as int, n as int).drop_first() =~= s@.subrange(b + 1, n as int));
        assert(s@.subrange(a as int, b + 1) =~= s@.subrange(a as int, b as int) + seq![s@[b as int]]);
        b += 1;
    }
    assert(leading_word(s@.subrange(b as int, n as int)) =~= Seq::<char>::empty());
    assert(s@.subrange(a as int, b as int) + Seq::<char>::empty() =~= s@.subrange(a as int, b as int));
    Some(s.substring_char(a, b))
}

/// What follows the last `/` of `w`.
pub fn last_segment_of(w: &str) -> (r: &str)
    ensures
        r@ == last_segment(w@),
{
    let m = w.unicode_len();
    let mut j: usize = m;
    assert(w@.subrange(j as int, m as int) =~= Seq::<char>::empty());
    assert(w@.subrange(0, m as int) =~= w@);
    while j > 0 && w.get_char(j - 1) != '/'
        invariant
            m == w@.len(),
            j <= m,
            last_segment(w@) == last_segment(w@.subrange(0, j as int)) + w@.subrange(j as int, m as int),
        decreases j,
    {
        assert(w@.subrange(0, j as int).drop_last() =~= w@.subrange(0, j - 1));
        assert(w@.subrange(j - 1, m as int) =~= seq![w@[j - 1]] + w@.subrange(j as int, m as int));
        j -= 1;
    }
    assert(last_segment(w@.subrange(0, j as int)) =~= Seq::<char>::empty());
    assert(Seq::<char>::empty() + w@.subrange(j as int, m as int) =~= w@.subrange(j as int, m as int));
    w.substring_char(j, m)
}

} // verus!

verus! {

/// The first position at which `p` occurs in `s`, if any.
pub open spec fn first_occurrence(s: Seq<char>, p: Seq<char>) -> Option<int> {
    if has_infix(s, p) {
        Some(choose|i: int| occurs_at(s, p, i) && forall|j: int| 0 <= j < i ==> !occurs_at(s, p, j))
    } else {
        None
    }
}

/// The first position at which `p` occurs in `s`, if any.
pub fn find_text(s: &str, p: &str) -> (r: Option<usize>)
    ensures
        match r {
            Some(i) => occurs_at(s@, p@, i as int) && forall|j: int| 0 <= j < i ==> !occurs_at(s@, p@, j),
            None => !has_infix(s@, p@),
        },
        r matches Some(i) ==> first_occurrence(s@, p@) == Some(i as int),
        r is None ==> first_occurrence(s@, p@) is None,
{
    let n = s.unicode_len();
    let m = p.unicode_len();
    if m > n {
        return None;
    }
    if m == 0 {
        assert(s@.subrange(0, 0) =~= p@);
        assert(occurs_at(s@, p@, 0));
        return Some(0);
    }
    let mut i: usize = 0;
    while i <= n - m
        invariant
            n == s@.len(),
            m == p@.len(),
            1 <= m <= n,
            i <= n - m + 1,
            forall|j: int| 0 <= j < i ==> !occurs_at(s@, p@, j),
        decreases n - m + 1 - i,
    {
        if occurs_at_exec(s, p, i) {
            proof {
                let c = choose|c: int| occurs_at(s@, p@, c) && forall|j: int| 0 <= j < c ==> !occurs_at(s@, p@, j);
                assert(has_infix(s@, p@));
                if c < i {
                } else if c > i {
                    assert(!occurs_at(s@, p@, i as int));
                }
            }
            return Some(i);
        }
        i += 1;
    }
    assert(!has_infix(s@, p@));
    None
}

/// Words joined with `sep` between each two.
pub open spec fn join_with(ws: Seq<Seq<char>>, sep: Seq<char>) -> Seq<char>
    decreases ws.len(),
{
    if ws.len() == 0 {
        Seq::empty()
    } else if ws.len() == 1 {
        ws[0]
    } else {
        join_with(ws.drop_last(), sep) + sep + ws.last()
    }
}

/// The views of a list of strings.
pub open spec fn views(v: Seq<String>) -> Seq<Seq<char>> {
    v.map_values(|s: String| s@)
}

/// The strings of `parts` joined with `sep` between each two.
pub fn join_text(parts: &Vec<String>, sep: &str) -> (r: String)
    ensures
        r@ == join_with(views(parts@), sep@),
{
    let mut out = String::new();
    let mut i: usize = 0;
    assert(views(parts@).take(0) =~= Seq::<Seq<char>>::empty());
    while i < parts.len()
        invariant
            i <= parts@.len(),
            out@ == join_with(views(parts@).take(i as int), sep@),
        decreases parts@.len() - i,
    {
        assert(views(parts@).take(i + 1).drop_last() =~= views(parts@).take(i as int));
        if i > 0 {
            out.append(sep);
        }
        out.append(parts[i].as_str());
        i += 1;
    }
    assert(views(parts@).take(parts@.len() as int) =~= views(parts@));
    out
}

} // verus!

verus! {

/// The pieces of `s` between occurrences of `sep`; there is always at least
/// one.
pub open spec fn pieces(s: Seq<char>, sep: char) -> Seq<Seq<char>>
    decreases s.len(),
{
    if s.len() == 0 {
        seq![Seq::empty()]
    } else if s.last() == sep {
        pieces(s.drop_last(), sep).push(Seq::empty())
    } else {
        let ps = pieces(s.drop_last(), sep);
        ps.update(ps.len() - 1, ps.last().push(s.last()))
    }
}

/// There is always a first piece.
pub proof fn lemma_pieces_nonempty(s: Seq<char>, sep: char)
    ensures
        pieces(s, sep).len() >= 1,
    decreases s.len(),
{
    if s.len() > 0 {
        lemma_pieces_nonempty(s.drop_last(), sep);
    }
}

/// The pieces of `s` between occurrences of `sep`.
pub fn split_text(s: &str, sep: char) -> (r: Vec<String>)
    ensures
        views(r@) == pieces(s@, sep),
{
    let n = s.unicode_len();
    let mut out: Vec<String> = Vec::new();
    let mut cur = String::new();
    let mut i: usize = 0;
    assert(s@.take(0) =~= Seq::<char>::empty());
    while i < n
        invariant
            n == s@.len(),
            i <= n,
            pieces(s@.take(i as int), sep).len() >= 1,
            views(out@) == pieces(s@.take(i as int), sep).drop_last(),
            cur@ == pieces(s@.take(i as int), sep).last(),
        decreases n - i,
    {
        let c = s.get_char(i);
        let ghost ps = pieces(s@.take(i as int), sep);
        assert(s@.take(i + 1).drop_last() =~= s@.take(i as int));
        assert(s@.take(i + 1).last() == c);
        if c == sep {
            out.push(cur);
            assert(ps.push(Seq::<char>::empty()).drop_last() =~= ps);
            assert(ps.drop_last().push(ps.last()) =~= ps);
            assert(views(out@) =~= ps);
            cur = String::new();
        } else {
            push_char(&mut cur, c);
            assert(ps.update(ps.len() - 1, ps.last().push(c)).drop_last() =~= ps.drop_last());
        }
        i += 1;
    }
    let ghost ps = pieces(s@.take(n as int), sep);
    out.push(cur);
    assert(s@.take(n as int) =~= s@);
    assert(ps.drop_last().push(ps.last()) =~= ps);
    assert(views(out@) =~= ps);
    out
}

/// What `char::to_uppercase` makes of a character: Unicode's upper-case
/// mapping, one to three characters.
pub uninterp spec fn uppercase_of(c: char) -> Seq<char>;

/// Relies on char::to_uppercase, collected into a string: the result
/// depends on the character alone.
#[verifier::external_body]
pub fn uppercase_char(c: char) -> (r: String)
    ensures
        r@ == uppercase_of(c),
{
    c.to_uppercase().collect::<String>()
}

/// A word with its first character in upper case.
pub open spec fn capitalized(w: Seq<char>) -> Seq<char> {
    if w.len() == 0 {
        w
    } else {
        uppercase_of(w[0]) + w.skip(1)
    }
}

/// The capitalized words of a list.
pub open spec fn capitalize_all(ws: Seq<Seq<char>>) -> Seq<Seq<char>>
    decreases ws.len(),
{
    if ws.len() == 0 {
        Seq::empty()
    } else {
        capitalize_all(ws.drop_last()).push(capitalized(ws.last()))
    }
}

/// A kebab-case name in title case: the pieces between hyphens, each
/// capitalized, joined with spaces.
pub open spec fn title_case(s: Seq<char>) -> Seq<char> {
    join_with(capitalize_all(pieces(s, '-')), " "@)
}

/// `w` with its first character in upper case.
pub fn capitalize(w: &str) -> (r: String)
    ensures
        r@ == capitalized(w@),
{
    let n = w.unicode_len();
    if n == 0 {
        return String::new();
    }
    let mut r = uppercase_char(w.get_char(0));
    r.append(w.substring_char(1, n));
    assert(w@.subrange(1, n as int) =~= w@.skip(1));
    r
}

/// A kebab-case name in title case (`skill-creator` becomes `Skill Creator`).
pub fn title_case_text(s: &str) -> (r: String)
    ensures
        r@ == title_case(s@),
{
    let words = split_text(s, '-');
    let mut caps: Vec<String> = Vec::new();
    let mut i: usize = 0;
    assert(views(words@).take(0) =~= Seq::<Seq<char>>::empty());
    while i < words.len()
        invariant
            i <= words@.len(),
            views(caps@) == capitalize_all(views(words@).take(i as int)),
        decreases words@.len() - i,
    {
        assert(views(words@).take(i + 1).drop_last() =~= views(words@).take(i as int));
        caps.push(capitalize(words[i].as_str()));
        assert(views(caps@) =~= capitalize_all(views(words@).take(i + 1)));
        i += 1;
    }
    assert(views(words@).take(words@.len() as int) =~= views(words@));
    join_text(&caps, " ")
}

} // verus!

verus! {

/// Whether `s` ends with `p`.
pub open spec fn has_suffix(s: Seq<char>, p: Seq<char>) -> bool {
    p.len() <= s.len() && s.skip(s.len() - p.len()) == p
}

/// `s` without the suffix `p`, when it has it.
pub open spec fn without_suffix(s: Seq<char>, p: Seq<char>) -> Seq<char> {
    if has_suffix(s, p) {
        s.take(s.len() - p.len())
    } else {
        s
    }
}

/// `s` without any number of trailing copies of `p` (`p` not empty).
pub open spec fn without_suffixes(s: Seq<char>, p: Seq<char>) -> Seq<char>
    decreases s.len(),
{
    if p.len() > 0 && has_suffix(s, p) {
        without_suffixes(s.take(s.len() - p.len()), p)
    } else {
        s
    }
}

/// Whether `s` ends with `p`.
pub fn ends_with_text(s: &str, p: &str) -> (r: bool)
    ensures
        r == has_suffix(s@, p@),
{
    let n = s.unicode_len();
    let m = p.unicode_len();
    if m > n {
        return false;
    }
    let r = occurs_at_exec(s, p, n - m);
    assert(s@.subrange((n - m) as int, (n - m + m) as int) =~= s@.skip(n - m));
    r
}

/// `s` without the suffix `p`, when it has it.
pub fn strip_suffix_text<'a>(s: &'a str, p: &str) -> (r: &'a str)
    ensures
        r@ == without_suffix(s@, p@),
{
    if ends_with_text(s, p) {
        let n = s.unicode_len();
        let m = p.unicode_len();
        let r = s.substring_char(0, n - m);
        assert(s@.subrange(0, (n - m) as int) =~= s@.take(n - m));
        r
    } else {
        s
    }
}

/// `s` without any number of trailing copies of `p`.
pub fn strip_suffixes_text<'a>(s: &'a str, p: &str) -> (r: &'a str)
    ensures
        r@ == without_suffixes(s@, p@),
{
    let m = p.unicode_len();
    if m == 0 {
        return s;
    }
    let mut cur = s;
    while ends_with_text(cur, p)
        invariant
            m == p@.len(),
            m > 0,
            without_suffixes(s@, p@) == without_suffixes(cur@, p@),
        decreases cur@.len(),
    {
        let n = cur.unicode_len();
        let next = cur.substring_char(0, n - m);
        assert(cur@.subrange(0, (n - m) as int) =~= cur@.take(n - m));
        cur = next;
    }
    cur
}

} // verus!
