//! Text rules shared by the server and the collector: joining lists,
//! decimal numbers, whitespace trimming, and splitting HTTP responses.

use vstd::prelude::*;
use vstd::string::StrSliceExecFns;
use vstd::string::StringExecFns;

verus! {

/// Joins texts with a separator between neighbours.
pub open spec fn joined(parts: Seq<Seq<char>>, sep: Seq<char>) -> Seq<char>
    decreases parts.len(),
{
    if parts.len() == 0 {
        Seq::empty()
    } else if parts.len() == 1 {
        parts[0]
    } else {
        joined(parts.drop_last(), sep) + sep + parts.last()
    }
}

/// The texts of a list of strings.
pub open spec fn texts_of(v: Seq<String>) -> Seq<Seq<char>> {
    v.map_values(|s: String| s@)
}

/// Joins strings with a separator, as `[String]::join` does.
pub fn join_with(parts: &Vec<String>, sep: &str) -> (r: String)
    ensures
        r@ == joined(texts_of(parts@), sep@),
{
    let mut r = String::new();
    let mut i: usize = 0;
    while i < parts.len()
        invariant
            i <= parts@.len(),
            r@ == joined(texts_of(parts@).take(i as int), sep@),
        decreases parts@.len() - i,
    {
        let ghost prefix = texts_of(parts@).take(i as int);
        assert(texts_of(parts@).take(i + 1).drop_last() =~= prefix);
        if i > 0 {
            r.append(sep);
        }
        r.append(parts[i].as_str());
        proof {
            if i == 0 {
                assert(r@ =~= texts_of(parts@).take(1)[0]);
            }
        }
        i = i + 1;
    }
    assert(texts_of(parts@).take(parts@.len() as int) =~= texts_of(parts@));
    r
}

/// The decimal digit of a number below ten.
pub open spec fn digit_char(d: nat) -> char {
    if d == 0 {
        '0'
    } else if d == 1 {
        '1'
    } else if d == 2 {
        '2'
    } else if d == 3 {
        '3'
    } else if d == 4 {
        '4'
    } else if d == 5 {
        '5'
    } else if d == 6 {
        '6'
    } else if d == 7 {
        '7'
    } else if d == 8 {
        '8'
    } else {
        '9'
    }
}

/// The decimal text of a natural number, without leading zeros.
pub open spec fn decimal(n: nat) -> Seq<char>
    decreases n,
{
    if n < 10 {
        seq![digit_char(n)]
    } else {
        decimal(n / 10) + seq![digit_char(n % 10)]
    }
}

fn digit_text(d: u32) -> (r: &'static str)
    requires
        d < 10,
    ensures
        r@ == seq![digit_char(d as nat)],
{
    proof {
        reveal_strlit("0");
        reveal_strlit("1");
        reveal_strlit("2");
        reveal_strlit("3");
        reveal_strlit("4");
        reveal_strlit("5");
        reveal_strlit("6");
        reveal_strlit("7");
        reveal_strlit("8");
        reveal_strlit("9");
    }
    if d == 0 {
        "0"
    } else if d == 1 {
        "1"
    } else if d == 2 {
        "2"
    } else if d == 3 {
        "3"
    } else if d == 4 {
        "4"
    } else if d == 5 {
        "5"
    } else if d == 6 {
        "6"
    } else if d == 7 {
        "7"
    } else if d == 8 {
        "8"
    } else {
        "9"
    }
}

fn append_decimal(s: &mut String, n: u32)
    ensures
        final(s)@ == old(s)@ + decimal(n as nat),
    decreases n,
{
    if n >= 10 {
        append_decimal(s, n / 10);
    }
    s.append(digit_text(n % 10));
    assert(final(s)@ =~= old(s)@ + decimal(n as nat));
}

/// The decimal text of a number, as `Display` writes it.
pub fn decimal_text(n: u32) -> (r: String)
    ensures
        r@ == decimal(n as nat),
{
    let mut r = String::new();
    append_decimal(&mut r, n);
    assert(r@ =~= decimal(n as nat));
    r
}

/// Unicode `White_Space` characters, which `char::is_whitespace` accepts.
pub open spec fn is_white_space(c: char) -> bool {
    ||| ('\u{9}' <= c && c <= '\u{d}')
    ||| c == ' '
    ||| c == '\u{85}'
    ||| c == '\u{a0}'
    ||| c == '\u{1680}'
    ||| ('\u{2000}' <= c && c <= '\u{200a}')
    ||| c == '\u{2028}'
    ||| c == '\u{2029}'
    ||| c == '\u{202f}'
    ||| c == '\u{205f}'
    ||| c == '\u{3000}'
}

fn white_space(c: char) -> (r: bool)
    ensures
        r == is_white_space(c),
{
    ('\u{9}' <= c && c <= '\u{d}') || c == ' ' || c == '\u{85}' || c == '\u{a0}' || c == '\u{1680}'
        || ('\u{2000}' <= c && c <= '\u{200a}') || c == '\u{2028}' || c == '\u{2029}' || c
        == '\u{202f}' || c == '\u{205f}' || c == '\u{3000}'
}

/// A text without its leading white space.
pub open spec fn trim_start(s: Seq<char>) -> Seq<char>
    decreases s.len(),
{
    if s.len() > 0 && is_white_space(s[0]) {
        trim_start(s.drop_first())
    } else {
        s
    }
}

/// A text without its trailing white space.
pub open spec fn trim_end(s: Seq<char>) -> Seq<char>
    decreases s.len(),
{
    if s.len() > 0 && is_white_space(s.last()) {
        trim_end(s.drop_last())
    } else {
        s
    }
}

/// A process name as the kernel reports it, without surrounding white space
/// (the kernel ends it with a newline).
pub fn trim_process_name(raw: &str) -> (r: String)
    ensures
        r@ == trim_end(trim_start(raw@)),
{
    let n = raw.unicode_len();
    let mut start: usize = 0;
    assert(raw@.subrange(0, n as int) =~= raw@);
    while start < n && white_space(raw.get_char(start))
        invariant
            n == raw@.len(),
            start <= n,
            trim_start(raw@) == trim_start(raw@.subrange(start as int, n as int)),
        decreases n - start,
    {
        assert(raw@.subrange(start as int, n as int).drop_first() =~= raw@.subrange(
            start + 1,
            n as int,
        ));
        start = start + 1;
    }
    let ghost lead = raw@.subrange(start as int, n as int);
    assert(trim_start(lead) == lead);
    let mut end: usize = n;
    while end > start && white_space(raw.get_char(end - 1))
        invariant
            n == raw@.len(),
            start <= end <= n,
            lead == raw@.subrange(start as int, n as int),
            trim_end(lead) == trim_end(raw@.subrange(start as int, end as int)),
        decreases end,
    {
        assert(raw@.subrange(start as int, end as int).drop_last() =~= raw@.subrange(
            start as int,
            end - 1,
        ));
        end = end - 1;
    }
    String::from_str(raw.substring_char(start, end))
}

/// Whether `pat` occurs in `s` at position `i`.
pub open spec fn occurs_at(s: Seq<char>, pat: Seq<char>, i: int) -> bool {
    0 <= i && i + pat.len() <= s.len() && s.subrange(i, i + pat.len()) == pat
}

/// The first position at or after `i` where `pat` occurs in `s`.
pub open spec fn first_occurrence(s: Seq<char>, pat: Seq<char>, i: int) -> Option<int>
    decreases s.len() + 1 - i,
{
    if i < 0 || i + pat.len() > s.len() {
        None
    } else if occurs_at(s, pat, i) {
        Some(i)
    } else {
        first_occurrence(s, pat, i + 1)
    }
}

/// The blank line that ends the head of an HTTP message.
pub open spec fn head_end() -> Seq<char> {
    seq!['\r', '\n', '\r', '\n']
}

/// The body of an HTTP response: what follows the first blank line, or
/// `None` when the response has none.
pub fn http_body(response: &str) -> (r: Option<String>)
    ensures
        match first_occurrence(response@, head_end(), 0) {
            Some(k) => r matches Some(body) && body@ == response@.subrange(k + 4, response@.len() as int),
            None => r is None,
        },
{
    let n = response.unicode_len();
    let mut i: usize = 0;
    while n >= 4 && i <= n - 4
        invariant
            n == response@.len(),
            i <= n,
            first_occurrence(response@, head_end(), 0) == first_occurrence(response@, head_end(), i as int),
        decreases n - i,
    {
        let found = response.get_char(i) == '\r' && response.get_char(i + 1) == '\n'
            && response.get_char(i + 2) == '\r' && response.get_char(i + 3) == '\n';
        if found {
            assert(response@.subrange(i as int, i + 4) =~= head_end());
            return Some(String::from_str(response.substring_char(i + 4, n)));
        }
        assert(!occurs_at(response@, head_end(), i as int)) by {
            if occurs_at(response@, head_end(), i as int) {
                assert(response@.subrange(i as int, i + 4)[0] == response@[i as int]);
                assert(response@.subrange(i as int, i + 4)[1] == response@[i + 1]);
                assert(response@.subrange(i as int, i + 4)[2] == response@[i + 2]);
                assert(response@.subrange(i as int, i + 4)[3] == response@[i + 3]);
            }
        }
        i = i + 1;
    }
    None
}

} // verus!
