use vstd::prelude::*;

verus! {

/// Compares two strings by their characters.
pub fn str_eq(a: &str, b: &str) -> (r: bool)
    ensures
        r == (a@ == b@),
{
    let x = String::from_str(a);
    let y = String::from_str(b);
    x == y
}

/// `s` starts and ends with a double quote (a single `"` does both).
pub open spec fn is_quoted(s: Seq<char>) -> bool {
    s.len() >= 1 && s[0] == '"' && s[s.len() - 1] == '"'
}

/// `s` is the text of a string literal: at least two characters, a double quote at
/// each end.
pub open spec fn is_string_literal_text(s: Seq<char>) -> bool {
    s.len() >= 2 && is_quoted(s)
}

/// The characters between the first and the last one.
pub open spec fn strip_ends(s: Seq<char>) -> Seq<char> {
    s.subrange(1, s.len() - 1)
}

/// Tells whether `s` starts and ends with a double quote.
pub fn quoted(s: &str) -> (r: bool)
    ensures
        r == is_quoted(s@),
{
    let n = s.unicode_len();
    n >= 1 && s.get_char(0) == '"' && s.get_char(n - 1) == '"'
}

/// The characters of `s` without its first and last one.
pub fn strip_first_and_last(s: &str) -> (r: String)
    requires
        s@.len() >= 2,
    ensures
        r@ == strip_ends(s@),
{
    let n = s.unicode_len();
    String::from_str(s.substring_char(1, n - 1))
}


/// `s` without the double quotes at its start.
pub open spec fn strip_leading_quotes(s: Seq<char>) -> Seq<char>
    decreases s.len(),
{
    if s.len() > 0 && s[0] == '"' {
        strip_leading_quotes(s.drop_first())
    } else {
        s
    }
}

/// `s` without the double quotes at its end.
pub open spec fn strip_trailing_quotes(s: Seq<char>) -> Seq<char>
    decreases s.len(),
{
    if s.len() > 0 && s[s.len() - 1] == '"' {
        strip_trailing_quotes(s.drop_last())
    } else {
        s
    }
}

/// `s` without the double quotes at either end.
pub open spec fn trim_quotes(s: Seq<char>) -> Seq<char> {
    strip_trailing_quotes(strip_leading_quotes(s))
}

/// `s` without any occurrence of `c`.
pub open spec fn remove_char(s: Seq<char>, c: char) -> Seq<char>
    decreases s.len(),
{
    if s.len() == 0 {
        s
    } else if s[s.len() - 1] == c {
        remove_char(s.drop_last(), c)
    } else {
        remove_char(s.drop_last(), c).push(s[s.len() - 1])
    }
}

/// Removes the double quotes at either end of `s`.
pub fn trim_quote_chars(s: &str) -> (r: String)
    ensures
        r@ == trim_quotes(s@),
{
    let n = s.unicode_len();
    let mut a: usize = 0;
    assert(s@.skip(0) =~= s@);
    while a < n && s.get_char(a) == '"'
        invariant
            n == s@.len(),
            0 <= a <= n,
            strip_leading_quotes(s@) == strip_leading_quotes(s@.skip(a as int)),
        decreases n - a,
    {
        assert(s@.skip(a as int).drop_first() =~= s@.skip(a + 1));
        a = a + 1;
    }
    let ghost lead = s@.skip(a as int);
    assert(strip_leading_quotes(lead) == lead);
    assert(lead =~= s@.subrange(a as int, n as int));
    let mut b: usize = n;
    while b > a && s.get_char(b - 1) == '"'
        invariant
            n == s@.len(),
            0 <= a <= b <= n,
            strip_trailing_quotes(lead) == strip_trailing_quotes(s@.subrange(a as int, b as int)),
        decreases b - a,
    {
        assert(s@.subrange(a as int, b as int).drop_last() =~= s@.subrange(a as int, b - 1));
        b = b - 1;
    }
    assert(strip_trailing_quotes(s@.subrange(a as int, b as int)) == s@.subrange(a as int, b as int));
    String::from_str(s.substring_char(a, b))
}

/// Removes every occurrence of `c` from `s`.
pub fn remove_chars(s: &str, c: char) -> (r: String)
    ensures
        r@ == remove_char(s@, c),
{
    let n = s.unicode_len();
    let mut r = String::new();
    let mut i: usize = 0;
    while i < n
        invariant
            n == s@.len(),
            0 <= i <= n,
            r@ == remove_char(s@.take(i as int), c),
        decreases n - i,
    {
        let ghost t = s@.take(i + 1);
        assert(t.drop_last() =~= s@.take(i as int));
        assert(t[t.len() - 1] == s@[i as int]);
        if s.get_char(i) != c {
            r.append(s.substring_char(i, i + 1));
            assert(s@.subrange(i as int, i + 1) =~= seq![s@[i as int]]);
        }
        i = i + 1;
    }
    assert(s@.take(n as int) =~= s@);
    r
}


/// Removing a character leaves no occurrence of it, and keeps every other
/// character.
pub proof fn law_remove_char(s: Seq<char>, c: char)
    ensures
        !remove_char(s, c).contains(c),
        forall|i: int| 0 <= i < s.len() && s[i] != c ==> remove_char(s, c).contains(#[trigger] s[i]),
    decreases s.len(),
{
    if s.len() > 0 {
        let p = s.drop_last();
        law_remove_char(p, c);
        assert forall|i: int| 0 <= i < s.len() && s[i] != c implies remove_char(s, c).contains(#[trigger] s[i]) by {
            if i < s.len() - 1 {
                assert(p[i] == s[i]);
                let k = choose|k: int| 0 <= k < remove_char(p, c).len() && remove_char(p, c)[k] == p[i];
                if s[s.len() - 1] != c {
                    assert(remove_char(s, c)[k] == p[i]);
                }
            } else {
                assert(remove_char(s, c)[remove_char(s, c).len() - 1] == s[i]);
            }
        }
        if s[s.len() - 1] != c {
            let r = remove_char(s, c);
            assert forall|k: int| 0 <= k < r.len() implies r[k] != c by {
                if k < r.len() - 1 {
                    assert(r[k] == remove_char(p, c)[k]);
                }
            }
        }
    }
}

proof fn lemma_strip_leading(s: Seq<char>)
    ensures
        strip_leading_quotes(s).len() == 0 || strip_leading_quotes(s)[0] != '"',
        strip_leading_quotes(s).len() <= s.len(),
    decreases s.len(),
{
    if s.len() > 0 && s[0] == '"' {
        lemma_strip_leading(s.drop_first());
    }
}

proof fn lemma_strip_trailing(s: Seq<char>)
    ensures
        strip_trailing_quotes(s).len() == 0 || strip_trailing_quotes(s).last() != '"',
        strip_trailing_quotes(s).len() == 0 || strip_trailing_quotes(s)[0] == s[0],
    decreases s.len(),
{
    if s.len() > 0 && s[s.len() - 1] == '"' {
        lemma_strip_trailing(s.drop_last());
    }
}

/// Trimming quotes leaves neither a leading nor a trailing double quote.
pub proof fn law_trim_quotes(s: Seq<char>)
    ensures
        trim_quotes(s).len() == 0 || (trim_quotes(s)[0] != '"' && trim_quotes(s).last() != '"'),
{
    lemma_strip_leading(s);
    lemma_strip_trailing(strip_leading_quotes(s));
}

} // verus!
