//! Text helpers: decimal rendering, joining, splitting and prefix tests, and
//! the few std routines on strings whose results the library relies on.

use vstd::prelude::*;
use vstd::string::StrSliceExecFns;
use vstd::string::StringExecFns;

verus! {

/// The views of a sequence of strings.
pub open spec fn view_strings(v: Seq<String>) -> Seq<Seq<char>> {
    v.map_values(|s: String| s@)
}

/// Appends one character to a string.
///
/// Trusted: std's `String::push`, which appends the character at the end.
#[verifier::external_body]
pub(crate) fn push_char(s: &mut String, c: char)
    ensures
        final(s)@ == old(s)@.push(c),
{
    s.push(c);
}

/// The character of a decimal digit.
pub open spec fn digit_char(d: nat) -> char {
    if d == 0 { '0' }
    else if d == 1 { '1' }
    else if d == 2 { '2' }
    else if d == 3 { '3' }
    else if d == 4 { '4' }
    else if d == 5 { '5' }
    else if d == 6 { '6' }
    else if d == 7 { '7' }
    else if d == 8 { '8' }
    else { '9' }
}

/// The decimal rendering of a natural number, as `{}` prints an integer.
pub open spec fn decimal_of(n: nat) -> Seq<char>
    decreases n,
{
    if n < 10 {
        seq![digit_char(n)]
    } else {
        decimal_of(n / 10).push(digit_char(n % 10))
    }
}

fn digit(d: u64) -> (c: char)
    requires
        d < 10,
    ensures
        c == digit_char(d as nat),
{
    if d == 0 { '0' }
    else if d == 1 { '1' }
    else if d == 2 { '2' }
    else if d == 3 { '3' }
    else if d == 4 { '4' }
    else if d == 5 { '5' }
    else if d == 6 { '6' }
    else if d == 7 { '7' }
    else if d == 8 { '8' }
    else { '9' }
}

/// Renders `n` in decimal.
pub fn decimal(n: u64) -> (r: String)
    ensures
        r@ == decimal_of(n as nat),
    decreases n,
{
    if n < 10 {
        let mut s = String::new();
        push_char(&mut s, digit(n));
        s
    } else {
        let mut s = decimal(n / 10);
        push_char(&mut s, digit(n % 10));
        s
    }
}

/// The pieces joined with `sep` between consecutive pieces.
pub open spec fn join_with(parts: Seq<Seq<char>>, sep: Seq<char>) -> Seq<char>
    decreases parts.len(),
{
    if parts.len() == 0 {
        seq![]
    } else if parts.len() == 1 {
        parts[0]
    } else {
        join_with(parts.drop_last(), sep) + sep + parts.last()
    }
}

/// Joins the strings with `sep` between consecutive ones (`[String]::join`).
pub fn join(parts: &Vec<String>, sep: &str) -> (r: String)
    ensures
        r@ == join_with(view_strings(parts@), sep@),
{
    let mut res = String::new();
    let ghost views = view_strings(parts@);
    let mut i: usize = 0;
    while i < parts.len()
        invariant
            i <= parts.len(),
            views == view_strings(parts@),
            res@ == join_with(views.take(i as int), sep@),
        decreases parts.len() - i,
    {
        assert(views.take(i + 1).drop_last() =~= views.take(i as int));
        if i != 0 {
            res.append(sep);
        }
        res.append(parts[i].as_str());
        i = i + 1;
    }
    assert(views.take(parts.len() as int) =~= views);
    res
}

/// The pieces of `s` between occurrences of `c`, as `str::split` with a
/// character pattern yields them: always at least one piece.
pub open spec fn split_on(s: Seq<char>, c: char) -> Seq<Seq<char>>
    decreases s.len(),
{
    if s.len() == 0 {
        seq![seq![]]
    } else {
        let prev = split_on(s.drop_last(), c);
        if s.last() == c {
            prev.push(seq![])
        } else {
            prev.update(prev.len() - 1, prev.last().push(s.last()))
        }
    }
}

/// `split_on` always yields at least one piece.
pub proof fn lemma_split_on_nonempty(s: Seq<char>, c: char)
    ensures
        split_on(s, c).len() >= 1,
    decreases s.len(),
{
    if s.len() > 0 {
        lemma_split_on_nonempty(s.drop_last(), c);
    }
}

/// Splits `s` at every occurrence of `c`.
pub fn split_char(s: &str, c: char) -> (r: Vec<String>)
    ensures
        view_strings(r@) == split_on(s@, c),
{
    let n = s.unicode_len();
    let mut pieces: Vec<String> = Vec::new();
    let mut cur = String::new();
    let mut i: usize = 0;
    assert(s@.take(0) =~= Seq::<char>::empty());
    while i < n
        invariant
            n == s@.len(),
            i <= n,
            view_strings(pieces@).push(cur@) == split_on(s@.take(i as int), c),
        decreases n - i,
    {
        let ch = s.get_char(i);
        let ghost prev = split_on(s@.take(i as int), c);
        assert(s@.take(i + 1).drop_last() =~= s@.take(i as int));
        assert(s@.take(i + 1).last() == ch);
        if ch == c {
            pieces.push(cur);
            cur = String::new();
            assert(view_strings(pieces@).push(cur@) =~= prev.push(seq![]));
        } else {
            let ghost old_pieces = view_strings(pieces@);
            push_char(&mut cur, ch);
            assert(view_strings(pieces@).push(cur@) =~= prev.update(prev.len() - 1, prev.last().push(ch)));
        }
        i = i + 1;
    }
    assert(s@.take(n as int) =~= s@);
    pieces.push(cur);
    assert(view_strings(pieces@) =~= split_on(s@, c));
    pieces
}

/// The text without one trailing carriage return, if it has one.
pub open spec fn strip_cr(s: Seq<char>) -> Seq<char> {
    if s.len() > 0 && s.last() == '\r' {
        s.drop_last()
    } else {
        s
    }
}

/// The lines of `s`, as `str::lines` yields them: the text between line
/// feeds, where a line ended by a line feed also loses a carriage return
/// before it, and a final empty piece after the last line feed is no line.
pub open spec fn lines_of(s: Seq<char>) -> Seq<Seq<char>> {
    let pieces = split_on(s, '\n');
    let ended = pieces.drop_last().map_values(|p: Seq<char>| strip_cr(p));
    if pieces.last().len() == 0 {
        ended
    } else {
        ended.push(pieces.last())
    }
}

/// Whether `prefix` begins `s`.
pub fn starts_with(s: &str, prefix: &str) -> (r: bool)
    ensures
        r == prefix@.is_prefix_of(s@),
{
    let n = s.unicode_len();
    let m = prefix.unicode_len();
    if m > n {
        return false;
    }
    let mut i: usize = 0;
    while i < m
        invariant
            n == s@.len(),
            m == prefix@.len(),
            m <= n,
            i <= m,
            forall|j: int| 0 <= j < i ==> prefix@[j] == s@[j],
        decreases m - i,
    {
        if s.get_char(i) != prefix.get_char(i) {
            return false;
        }
        i = i + 1;
    }
    true
}

/// The text `{:?}` prints for a string: quoted, with escapes.
pub uninterp spec fn debug_text(s: Seq<char>) -> Seq<char>;

/// Renders a string as `{:?}` does.
///
/// Trusted: std's `Debug` for `str`; the result is named by `debug_text`,
/// a function of the string alone.
#[verifier::external_body]
pub(crate) fn debug_str(s: &str) -> (r: String)
    ensures
        r@ == debug_text(s@),
{
    format!("{:?}", s)
}

} // verus!

verus! {

/// A copy of a string.
pub fn clone_string(s: &String) -> (r: String)
    ensures
        r@ == s@,
{
    s.clone()
}

/// A copy of a vector of strings.
pub fn clone_strings(v: &Vec<String>) -> (r: Vec<String>)
    ensures
        view_strings(r@) == view_strings(v@),
{
    let mut r: Vec<String> = Vec::new();
    let mut i: usize = 0;
    while i < v.len()
        invariant
            i <= v@.len(),
            r@.len() == i,
            forall|k: int| 0 <= k < i ==> r@[k]@ == v@[k]@,
        decreases v.len() - i,
    {
        r.push(clone_string(&v[i]));
        i = i + 1;
    }
    assert(view_strings(r@) =~= view_strings(v@));
    r
}

/// Whether `s` is one of the strings.
pub fn contains_string(v: &Vec<String>, s: &String) -> (r: bool)
    ensures
        r == view_strings(v@).contains(s@),
{
    let mut i: usize = 0;
    while i < v.len()
        invariant
            i <= v@.len(),
            forall|j: int| 0 <= j < i ==> v@[j]@ != s@,
        decreases v.len() - i,
    {
        if v[i] == *s {
            assert(view_strings(v@)[i as int] == s@);
            return true;
        }
        i = i + 1;
    }
    assert(!view_strings(v@).contains(s@)) by {
        assert forall|j: int| 0 <= j < view_strings(v@).len() implies view_strings(v@)[j] != s@ by {
            assert(view_strings(v@)[j] == v@[j]@);
        }
    }
    false
}

} // verus!

verus! {

/// The text `{:#?}` gives for the error of decoding these bytes as UTF-8.
pub uninterp spec fn utf8_error_debug_of(bytes: Seq<u8>) -> Seq<char>;

/// The text `{}` gives for the error of decoding these bytes as UTF-8.
pub uninterp spec fn utf8_error_display_of(bytes: Seq<u8>) -> Seq<char>;

/// Why bytes are not UTF-8: the error rendered both ways.
pub struct Utf8Failure {
    /// The error as `{:#?}` renders it.
    pub debug: String,
    /// The error as `{}` renders it.
    pub display: String,
}

/// Decodes bytes as UTF-8.
///
/// Trusted: std's `String::from_utf8`, which succeeds exactly on valid UTF-8
/// and then holds the decoded characters. Its error is handed back rendered
/// by its `Debug` (`{:#?}`) and its `Display`; both renderings depend on the
/// bytes alone and are named by `utf8_error_debug_of` and
/// `utf8_error_display_of`, without their wording being stated.
#[verifier::external_body]
pub(crate) fn decode_utf8(bytes: Vec<u8>) -> (r: Result<String, Utf8Failure>)
    ensures
        r is Ok <==> vstd::utf8::valid_utf8(bytes@),
        r matches Ok(s) ==> s@ == vstd::utf8::decode_utf8(bytes@),
        r matches Err(f) ==> f.debug@ == utf8_error_debug_of(bytes@) && f.display@ == utf8_error_display_of(bytes@),
{
    match String::from_utf8(bytes) {
        Ok(s) => Ok(s),
        Err(e) => Err(Utf8Failure { debug: format!("{:#?}", e), display: format!("{}", e) }),
    }
}

/// Concatenates two strings.
pub fn concat(a: &str, b: &str) -> (r: String)
    ensures
        r@ == a@ + b@,
{
    let mut s = String::from_str(a);
    s.append(b);
    s
}

} // verus!

verus! {

/// Drops one trailing carriage return.
fn strip_cr_exec(s: String) -> (r: String)
    ensures
        r@ == strip_cr(s@),
{
    let n = s.as_str().unicode_len();
    if n > 0 && s.as_str().get_char(n - 1) == '\r' {
        let r = String::from_str(s.as_str().substring_char(0, n - 1));
        assert(s@.subrange(0, n - 1) =~= s@.drop_last());
        r
    } else {
        s
    }
}

/// The lines of a text, as `str::lines` yields them.
pub fn lines(s: &str) -> (r: Vec<String>)
    ensures
        view_strings(r@) == lines_of(s@),
{
    let pieces = split_char(s, '\n');
    let ghost ps = split_on(s@, '\n');
    proof {
        lemma_split_on_nonempty(s@, '\n');
    }
    let n = pieces.len();
    assert(view_strings(pieces@).len() == ps.len());
    let mut out: Vec<String> = Vec::new();
    let mut i: usize = 0;
    while i + 1 < n
        invariant
            n == pieces@.len(),
            n >= 1,
            i + 1 <= n,
            view_strings(pieces@) == ps,
            out@.len() == i,
            forall|k: int| 0 <= k < i ==> out@[k]@ == strip_cr(ps[k]),
        decreases n - i,
    {
        assert(ps[i as int] == pieces@[i as int]@);
        out.push(strip_cr_exec(clone_string(&pieces[i])));
        i = i + 1;
    }
    let ghost ended = ps.drop_last().map_values(|p: Seq<char>| strip_cr(p));
    assert(view_strings(out@) =~= ended);
    let last = &pieces[n - 1];
    assert(last@ == ps.last());
    if last.as_str().unicode_len() > 0 {
        out.push(clone_string(last));
        assert(view_strings(out@) =~= ended.push(ps.last()));
    }
    out
}

} // verus!
