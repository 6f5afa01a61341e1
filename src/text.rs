//! Text primitives: the std string operations the library relies on, and
//! small verified helpers over character sequences.
use vstd::prelude::*;

verus! {

/// What `str::trim` leaves of a character sequence.
pub uninterp spec fn trim_of(s: Seq<char>) -> Seq<char>;

/// What `str::to_lowercase` makes of a character sequence.
pub uninterp spec fn lower_of(s: Seq<char>) -> Seq<char>;

/// Relies on `str::trim`: the result depends on the characters alone, and
/// has no leading or trailing whitespace, so trimming it again keeps it.
#[verifier::external_body]
pub(crate) fn trim_text(s: &str) -> (r: &str)
    ensures
        r@ == trim_of(s@),
        trim_of(r@) == r@,
{
    s.trim()
}

/// Relies on `str::to_lowercase`: the result depends on the characters alone.
#[verifier::external_body]
pub(crate) fn lowercase(s: &str) -> (r: String)
    ensures
        r@ == lower_of(s@),
{
    s.to_lowercase()
}

/// The whitespace-separated words that `str::split_whitespace` finds.
pub uninterp spec fn words_of(s: Seq<char>) -> Seq<Seq<char>>;

/// The characters of each text, in order.
pub open spec fn views_of(ws: Seq<&str>) -> Seq<Seq<char>> {
    ws.map_values(|w: &str| w@)
}

/// Relies on `str::split_whitespace`: the words depend on the characters alone.
#[verifier::external_body]
pub(crate) fn split_words(s: &str) -> (r: Vec<&str>)
    ensures
        views_of(r@) == words_of(s@),
{
    s.split_whitespace().collect()
}

pub open spec fn is_digit(c: char) -> bool {
    '0' <= c <= '9'
}

/// The number that a sequence of decimal digits writes.
pub open spec fn digits_value(s: Seq<char>) -> int
    decreases s.len(),
{
    if s.len() == 0 {
        0
    } else {
        digits_value(s.drop_last()) * 10 + (s.last() as int - '0' as int)
    }
}

/// The text without one leading `+`, if it has one.
pub open spec fn unsigned_part(s: Seq<char>) -> Seq<char> {
    if s.len() > 0 && s[0] == '+' {
        s.drop_first()
    } else {
        s
    }
}

/// The `usize` that a text writes in decimal: an optional `+`, then one or
/// more ASCII digits, with a value that fits.
pub open spec fn usize_of_text(s: Seq<char>) -> Option<usize> {
    let d = unsigned_part(s);
    if d.len() > 0 && (forall|i: int| 0 <= i < d.len() ==> is_digit(#[trigger] d[i]))
        && digits_value(d) <= usize::MAX {
        Some(digits_value(d) as usize)
    } else {
        None
    }
}

/// Relies on `str::parse::<usize>`: an optional `+` followed by ASCII digits
/// whose value fits in `usize`; anything else is an error.
#[verifier::external_body]
pub(crate) fn parse_usize(s: &str) -> (r: Option<usize>)
    ensures
        r == usize_of_text(s@),
{
    s.parse::<usize>().ok()
}

/// Words joined with single spaces.
pub open spec fn joined(ws: Seq<Seq<char>>) -> Seq<char>
    decreases ws.len(),
{
    if ws.len() == 0 {
        Seq::empty()
    } else if ws.len() == 1 {
        ws[0]
    } else {
        joined(ws.drop_last()) + " "@ + ws.last()
    }
}

/// The words from position `from` on, joined with single spaces.
pub fn join_from(words: &Vec<&str>, from: usize) -> (r: String)
    requires
        from < words@.len(),
    ensures
        r@ == joined(views_of(words@).subrange(from as int, words@.len() as int)),
{
    let n = words.len();
    let mut out = String::from_str(words[from]);
    let mut i: usize = from + 1;
    assert(views_of(words@).subrange(from as int, i as int) =~= seq![words@[from as int]@]);
    while i < n
        invariant
            n == words@.len(),
            from < i <= n,
            out@ == joined(views_of(words@).subrange(from as int, i as int)),
        decreases words@.len() - i,
    {
        out.append(" ");
        out.append(words[i]);
        i = i + 1;
        assert(views_of(words@).subrange(from as int, i as int).drop_last() =~= views_of(
            words@,
        ).subrange(from as int, i - 1));
    }
    out
}

/// Whether two texts hold the same characters.
pub fn text_equals(a: &str, b: &str) -> (r: bool)
    ensures
        r == (a@ == b@),
{
    let n = a.unicode_len();
    if n != b.unicode_len() {
        return false;
    }
    let mut i: usize = 0;
    while i < n
        invariant
            n == a@.len(),
            n == b@.len(),
            i <= n,
            forall|j: int| 0 <= j < i ==> a@[j] == b@[j],
        decreases n - i,
    {
        if a.get_char(i) != b.get_char(i) {
            return false;
        }
        i = i + 1;
    }
    assert(a@ =~= b@);
    true
}

} // verus!
