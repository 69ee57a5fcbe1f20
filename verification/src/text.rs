//! Small text builders with exact specifications: decimal rendering of
//! integers and appending characters to a `String`.

use vstd::prelude::*;

verus! {

/// The ASCII digit for a value below ten.
pub open spec fn digit_char(d: nat) -> char {
    (48 + d) as char
}

/// The decimal rendering of a natural number, without sign or leading zeros.
pub open spec fn decimal(n: nat) -> Seq<char>
    decreases n,
{
    if n < 10 {
        seq![digit_char(n)]
    } else {
        decimal(n / 10).push(digit_char(n % 10))
    }
}

/// Appends one character: `String::push`.
#[verifier::external_body]
pub(crate) fn push_char(s: &mut String, c: char)
    ensures
        final(s)@ == old(s)@.push(c),
{
    s.push(c)
}

/// Appends a string slice.
pub fn push_str(s: &mut String, t: &str)
    ensures
        final(s)@ == old(s)@ + t@,
{
    s.append(t);
}

fn digit(d: u64) -> (c: char)
    requires
        d < 10,
    ensures
        c == digit_char(d as nat),
{
    let b: u8 = 48u8 + (d as u8);
    b as char
}

/// Appends the decimal rendering of `n`.
pub fn push_decimal(s: &mut String, n: u64)
    ensures
        final(s)@ == old(s)@ + decimal(n as nat),
    decreases n,
{
    if n >= 10 {
        push_decimal(s, n / 10);
    }
    push_char(s, digit(n % 10));
    proof {
        if n < 10 {
            assert(n % 10 == n);
        }
    }
}

/// The decimal rendering of `n` as a new string.
pub fn decimal_string(n: u64) -> (s: String)
    ensures
        s@ == decimal(n as nat),
{
    let mut s = String::new();
    push_decimal(&mut s, n);
    assert(s@ =~= decimal(n as nat));
    s
}

/// Whether two texts are equal, character by character.
pub fn same_text(a: &str, b: &str) -> (eq: bool)
    ensures
        eq == (a@ == b@),
{
    let n = a.unicode_len();
    let m = b.unicode_len();
    if n != m {
        return false;
    }
    let mut i: usize = 0;
    while i < n
        invariant
            n == a@.len(),
            m == b@.len(),
            n == m,
            i <= n,
            forall|k: int| 0 <= k < i ==> a@[k] == b@[k],
        decreases n - i,
    {
        if a.get_char(i) != b.get_char(i) {
            return false;
        }
        i = i + 1;
    }
    assert(a@ =~= b@);
    true
}

/// The characters that `char::is_whitespace` accepts: those with the Unicode
/// `White_Space` property.
pub open spec fn is_white_space(c: char) -> bool {
    ||| '\u{9}' <= c <= '\u{d}'
    ||| c == ' '
    ||| c == '\u{85}'
    ||| c == '\u{a0}'
    ||| c == '\u{1680}'
    ||| '\u{2000}' <= c <= '\u{200a}'
    ||| c == '\u{2028}'
    ||| c == '\u{2029}'
    ||| c == '\u{202f}'
    ||| c == '\u{205f}'
    ||| c == '\u{3000}'
}

/// `s` without its leading white space.
pub open spec fn trim_start(s: Seq<char>) -> Seq<char>
    decreases s.len(),
{
    if s.len() > 0 && is_white_space(s[0]) {
        trim_start(s.drop_first())
    } else {
        s
    }
}

/// `s` without its trailing white space.
pub open spec fn trim_end(s: Seq<char>) -> Seq<char>
    decreases s.len(),
{
    if s.len() > 0 && is_white_space(s.last()) {
        trim_end(s.drop_last())
    } else {
        s
    }
}

/// `s` without its leading and trailing white space.
pub open spec fn trimmed(s: Seq<char>) -> Seq<char> {
    trim_end(trim_start(s))
}

/// `s` with every `"::"`, read from the left, replaced by `"."`.
pub open spec fn dotted(s: Seq<char>) -> Seq<char>
    decreases s.len(),
{
    if s.len() >= 2 && s[0] == ':' && s[1] == ':' {
        seq!['.'] + dotted(s.skip(2))
    } else if s.len() > 0 {
        seq![s[0]] + dotted(s.drop_first())
    } else {
        Seq::empty()
    }
}

proof fn lemma_dotted_skip(s: Seq<char>, i: int)
    requires
        0 <= i <= s.len(),
    ensures
        i + 2 <= s.len() && s[i] == ':' && s[i + 1] == ':' ==> dotted(s.skip(i)) == seq!['.'] + dotted(s.skip(i + 2)),
        !(i + 2 <= s.len() && s[i] == ':' && s[i + 1] == ':') && i < s.len() ==> dotted(s.skip(i)) == seq![s[i]] + dotted(s.skip(i + 1)),
{
    let t = s.skip(i);
    if t.len() >= 2 {
        assert(t[0] == s[i] && t[1] == s[i + 1]);
        assert(t.skip(2) =~= s.skip(i + 2));
    }
    if t.len() > 0 {
        assert(t.drop_first() =~= s.skip(i + 1));
        assert(t[0] == s[i]);
    }
}

/// A path without `':'` is written as it is, and every `"::"` that follows
/// such a segment becomes one `'.'`: the segments of a path are kept, and
/// only the separators between them change.
pub proof fn lemma_dotted_segments(seg: Seq<char>, rest: Seq<char>)
    requires
        !seg.contains(':'),
    ensures
        dotted(seg) == seg,
        dotted(seg + "::"@ + rest) == seg + seq!['.'] + dotted(rest),
    decreases seg.len(),
{
    reveal_strlit("::");
    if seg.len() == 0 {
        assert(seg + "::"@ + rest =~= seq![':', ':'] + rest);
        let t = seq![':', ':'] + rest;
        assert(t.skip(2) =~= rest);
        assert(seg + seq!['.'] + dotted(rest) =~= seq!['.'] + dotted(rest));
    } else {
        let tail = seg.drop_first();
        assert(!tail.contains(':')) by {
            if tail.contains(':') {
                let i = choose|i: int| 0 <= i < tail.len() && tail[i] == ':';
                assert(seg[i + 1] == ':');
            }
        }
        assert(seg[0] != ':') by {
            if seg[0] == ':' {
                assert(seg.contains(':'));
            }
        }
        lemma_dotted_segments(tail, rest);
        assert(dotted(seg) == seq![seg[0]] + dotted(tail));
        assert(seq![seg[0]] + tail =~= seg);
        let whole = seg + "::"@ + rest;
        assert(whole[0] == seg[0]);
        assert(whole.drop_first() =~= tail + "::"@ + rest);
        assert(dotted(whole) == seq![seg[0]] + dotted(tail + "::"@ + rest));
        assert(seq![seg[0]] + (tail + seq!['.'] + dotted(rest)) =~= seg + seq!['.'] + dotted(rest));
    }
}

/// No two neighbouring characters of `s` are both `':'`.
pub open spec fn has_no_double_colon(s: Seq<char>) -> bool {
    forall|i: int| 0 <= i && i + 1 < s.len() ==> !(#[trigger] s[i] == ':' && s[i + 1] == ':')
}

proof fn lemma_dotted_first(s: Seq<char>)
    ensures
        dotted(s).len() == 0 <==> s.len() == 0,
        s.len() > 0 && s[0] != ':' ==> dotted(s)[0] == s[0],
{
    if s.len() > 0 && s[0] != ':' {
        assert(dotted(s) == seq![s[0]] + dotted(s.drop_first()));
    }
}

/// A path written with dots never holds `"::"`: every separator of the
/// path was replaced, and what is left of a lone `':'` is never followed by another.
pub proof fn lemma_dotted_has_no_double_colon(s: Seq<char>)
    ensures
        has_no_double_colon(dotted(s)),
    decreases s.len(),
{
    let d = dotted(s);
    if s.len() >= 2 && s[0] == ':' && s[1] == ':' {
        lemma_dotted_has_no_double_colon(s.skip(2));
        let rest = dotted(s.skip(2));
        assert(d == seq!['.'] + rest);
        assert forall|i: int| 0 <= i && i + 1 < d.len() implies !(#[trigger] d[i] == ':' && d[i + 1] == ':') by {
            if i > 0 {
                assert(d[i] == rest[i - 1] && d[i + 1] == rest[i]);
            }
        }
    } else if s.len() > 0 {
        let t = s.drop_first();
        lemma_dotted_has_no_double_colon(t);
        lemma_dotted_first(t);
        let rest = dotted(t);
        assert(d == seq![s[0]] + rest);
        assert forall|i: int| 0 <= i && i + 1 < d.len() implies !(#[trigger] d[i] == ':' && d[i + 1] == ':') by {
            if i > 0 {
                assert(d[i] == rest[i - 1] && d[i + 1] == rest[i]);
            } else {
                assert(d[1] == rest[0]);
                if s[0] == ':' {
                    assert(t[0] == s[1]);
                }
            }
        }
    }
}

/// `str::replace(s, "::", ".")`: the type path `s` written with dots.
pub fn replace_path_separators(s: &str) -> (r: String)
    ensures
        r@ == dotted(s@),
{
    let n = s.unicode_len();
    let mut r = String::new();
    let mut i: usize = 0;
    assert(s@.skip(0) =~= s@);
    while i < n
        invariant
            n == s@.len(),
            i <= n,
            r@ + dotted(s@.skip(i as int)) == dotted(s@),
        decreases n - i,
    {
        proof {
            lemma_dotted_skip(s@, i as int);
        }
        if i + 1 < n && s.get_char(i) == ':' && s.get_char(i + 1) == ':' {
            let ghost before = r@;
            push_char(&mut r, '.');
            assert(before + (seq!['.'] + dotted(s@.skip(i + 2))) =~= r@ + dotted(s@.skip(i + 2)));
            i = i + 2;
        } else {
            let c = s.get_char(i);
            let ghost before = r@;
            push_char(&mut r, c);
            assert(before + (seq![c] + dotted(s@.skip(i + 1))) =~= r@ + dotted(s@.skip(i + 1)));
            i = i + 1;
        }
    }
    assert(s@.skip(n as int) =~= Seq::<char>::empty());
    assert(r@ =~= r@ + dotted(s@.skip(n as int)));
    r
}

/// `str::trim`: removes leading and trailing white space, as std documents
/// it (characters with the Unicode `White_Space` property).
#[verifier::external_body]
pub(crate) fn trim(s: &str) -> (t: &str)
    ensures
        t@ == trimmed(s@),
{
    s.trim()
}

} // verus!

