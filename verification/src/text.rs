//! Character-level utilities: timestamp normalization, ASCII lowercasing,
//! lexicographic order on strings, and extension extraction from a path.

use vstd::prelude::*;
use vstd::string::*;

verus! {

broadcast use vstd::utf8::char_u32_cast;

/// How a single character is normalized: raw metadata timestamps are
/// colon/space-delimited, the canonical form is hyphen/underscore-delimited.
pub open spec fn norm_char(c: char) -> char {
    if c == ':' {
        '-'
    } else if c == ' ' {
        '_'
    } else {
        c
    }
}

/// The canonical form of a raw timestamp string: every colon becomes a
/// hyphen and every space an underscore.
pub open spec fn normalized(s: Seq<char>) -> Seq<char> {
    s.map_values(|c: char| norm_char(c))
}

/// Relies on String::push: appends exactly the one character.
#[verifier::external_body]
pub(crate) fn push_char(s: &mut String, c: char)
    ensures
        final(s)@ == old(s)@.push(c),
{
    s.push(c);
}

/// Rewrites a raw `YYYY:MM:DD HH:MM:SS`-style value to the canonical
/// `YYYY-MM-DD_HH-MM-SS` form; characters other than colon and space are
/// kept as they are.
pub fn normalize_timestamp(s: &str) -> (r: String)
    ensures
        r@ == normalized(s@),
{
    let n: usize = s.unicode_len();
    let mut out = String::new();
    let mut i: usize = 0;
    while i < n
        invariant
            n == s@.len(),
            i <= n,
            out@ == normalized(s@.subrange(0, i as int)),
        decreases n - i,
    {
        let c = s.get_char(i);
        let m = if c == ':' {
            '-'
        } else if c == ' ' {
            '_'
        } else {
            c
        };
        push_char(&mut out, m);
        proof {
            assert(s@.subrange(0, (i + 1) as int) =~= s@.subrange(0, i as int).push(s@[i as int]));
            assert(out@ =~= normalized(s@.subrange(0, (i + 1) as int)));
        }
        i += 1;
    }
    proof {
        assert(s@.subrange(0, n as int) =~= s@);
    }
    out
}

/// A normalized string never contains a space: a space in the input is
/// always rewritten to an underscore.
pub proof fn lemma_normalized_has_no_space(s: Seq<char>)
    ensures
        forall|i: int| 0 <= i < normalized(s).len() ==> normalized(s)[i] != ' ',
{
}

/// ASCII lowercasing of a single character; everything outside `A`..`Z`
/// is kept as it is.
pub open spec fn lower_char(c: char) -> char {
    if 65 <= c as u32 && c as u32 <= 90 {
        (((c as u32) + 32) as u8) as char
    } else {
        c
    }
}

/// ASCII lowercasing of a whole string.
pub open spec fn lowered(s: Seq<char>) -> Seq<char> {
    s.map_values(|c: char| lower_char(c))
}

/// Lowercases the ASCII letters of a string; other characters pass through.
pub fn lowercase_ascii(s: &str) -> (r: String)
    ensures
        r@ == lowered(s@),
{
    let n: usize = s.unicode_len();
    let mut out = String::new();
    let mut i: usize = 0;
    while i < n
        invariant
            n == s@.len(),
            i <= n,
            out@ == lowered(s@.subrange(0, i as int)),
        decreases n - i,
    {
        let c = s.get_char(i);
        let u: u32 = c as u32;
        let m = if 65 <= u && u <= 90 {
            ((u + 32) as u8) as char
        } else {
            c
        };
        push_char(&mut out, m);
        proof {
            assert(s@.subrange(0, (i + 1) as int) =~= s@.subrange(0, i as int).push(s@[i as int]));
            assert(out@ =~= lowered(s@.subrange(0, (i + 1) as int)));
        }
        i += 1;
    }
    proof {
        assert(s@.subrange(0, n as int) =~= s@);
    }
    out
}

/// Strict lexicographic order on character sequences, by code point.
/// For strings drawn from the canonical timestamp format this equals
/// chronological order.
pub open spec fn lex_lt(a: Seq<char>, b: Seq<char>) -> bool
    decreases a.len(),
{
    if b.len() == 0 {
        false
    } else if a.len() == 0 {
        true
    } else if (a[0] as u32) < (b[0] as u32) {
        true
    } else if a[0] == b[0] {
        lex_lt(a.drop_first(), b.drop_first())
    } else {
        false
    }
}

/// The order is total: any two strings are ordered one way, the other way,
/// or equal, and never two of these at once.
pub proof fn lemma_lex_trichotomy(a: Seq<char>, b: Seq<char>)
    ensures
        lex_lt(a, b) || lex_lt(b, a) || a == b,
        !(lex_lt(a, b) && lex_lt(b, a)),
        lex_lt(a, b) ==> a != b,
    decreases a.len(),
{
    if b.len() == 0 && a.len() == 0 {
        assert(a =~= b);
    } else if b.len() == 0 || a.len() == 0 {
    } else if a[0] == b[0] {
        lemma_lex_trichotomy(a.drop_first(), b.drop_first());
        if a.drop_first() == b.drop_first() {
            assert forall|i: int| 0 <= i < a.len() implies a[i] == b[i] by {
                if i > 0 {
                    assert(a[i] == a.drop_first()[i - 1]);
                    assert(b[i] == b.drop_first()[i - 1]);
                }
            }
            assert(a =~= b);
        }
    } else {
        vstd::utf8::char_u32_cast(a[0], a[0] as u32);
        vstd::utf8::char_u32_cast(b[0], b[0] as u32);
        assert((a[0] as u32) != (b[0] as u32));
    }
}

/// The order is transitive.
pub proof fn lemma_lex_transitive(a: Seq<char>, b: Seq<char>, c: Seq<char>)
    requires
        lex_lt(a, b),
        lex_lt(b, c),
    ensures
        lex_lt(a, c),
    decreases a.len(),
{
    if a.len() == 0 {
    } else if b.len() == 0 || c.len() == 0 {
    } else {
        if a[0] == b[0] && b[0] == c[0] {
            lemma_lex_transitive(a.drop_first(), b.drop_first(), c.drop_first());
        }
    }
}

/// Dropping an equal prefix does not change how two strings are ordered.
pub proof fn lemma_lex_skip_common_prefix(a: Seq<char>, b: Seq<char>, i: int)
    requires
        0 <= i <= a.len(),
        i <= b.len(),
        forall|k: int| 0 <= k < i ==> a[k] == b[k],
    ensures
        lex_lt(a, b) == lex_lt(a.subrange(i, a.len() as int), b.subrange(i, b.len() as int)),
    decreases i,
{
    if i == 0 {
        assert(a.subrange(0, a.len() as int) =~= a);
        assert(b.subrange(0, b.len() as int) =~= b);
    } else {
        lemma_lex_skip_common_prefix(a.drop_first(), b.drop_first(), i - 1);
        assert(a.drop_first().subrange(i - 1, a.drop_first().len() as int) =~= a.subrange(
            i,
            a.len() as int,
        ));
        assert(b.drop_first().subrange(i - 1, b.drop_first().len() as int) =~= b.subrange(
            i,
            b.len() as int,
        ));
    }
}

/// The result of a three-way comparison of two timestamp keys.
#[derive(Clone, Copy, Debug, PartialEq, Eq, Structural)]
pub enum KeyOrder {
    Less,
    Equal,
    Greater,
}

/// Three-way comparison of two strings in the lexicographic order `lex_lt`.
pub fn compare_keys(a: &str, b: &str) -> (r: KeyOrder)
    ensures
        (r == KeyOrder::Less) == lex_lt(a@, b@),
        (r == KeyOrder::Equal) == (a@ == b@),
        (r == KeyOrder::Greater) == lex_lt(b@, a@),
{
    let la: usize = a.unicode_len();
    let lb: usize = b.unicode_len();
    let min: usize = if la < lb {
        la
    } else {
        lb
    };
    let mut i: usize = 0;
    while i < min
        invariant
            la == a@.len(),
            lb == b@.len(),
            min == if la < lb {
                la
            } else {
                lb
            },
            i <= min,
            forall|k: int| 0 <= k < i ==> a@[k] == b@[k],
        decreases min - i,
    {
        let ca = a.get_char(i);
        let cb = b.get_char(i);
        if (ca as u32) < (cb as u32) {
            proof {
                lemma_lex_skip_common_prefix(a@, b@, i as int);
                lemma_lex_skip_common_prefix(b@, a@, i as int);
                lemma_lex_trichotomy(a@, b@);
            }
            return KeyOrder::Less;
        }
        if (cb as u32) < (ca as u32) {
            proof {
                lemma_lex_skip_common_prefix(a@, b@, i as int);
                lemma_lex_skip_common_prefix(b@, a@, i as int);
                lemma_lex_trichotomy(a@, b@);
            }
            return KeyOrder::Greater;
        }
        proof {
            assert(a@[i as int] == b@[i as int]);
        }
        i += 1;
    }
    proof {
        lemma_lex_skip_common_prefix(a@, b@, min as int);
        lemma_lex_skip_common_prefix(b@, a@, min as int);
        lemma_lex_trichotomy(a@, b@);
        if la == lb {
            assert(a@ =~= b@);
        }
    }
    if la < lb {
        KeyOrder::Less
    } else if lb < la {
        KeyOrder::Greater
    } else {
        KeyOrder::Equal
    }
}

/// What counts as the extension of a path: the part of the last path
/// component that follows its last dot, unless that dot begins the
/// component (a dotfile has no extension).  `r` is `Some(e)` exactly when
/// such a dot exists.
pub open spec fn is_extension_at(p: Seq<char>, j: int) -> bool {
    &&& 1 <= j < p.len()
    &&& p[j] == '.'
    &&& p[j - 1] != '/'
    &&& forall|k: int| j < k < p.len() ==> p[k] != '.' && p[k] != '/'
}

/// The dot that starts an extension is unique if it exists.
pub proof fn lemma_extension_dot_unique(p: Seq<char>, j1: int, j2: int)
    requires
        is_extension_at(p, j1),
        is_extension_at(p, j2),
    ensures
        j1 == j2,
{
}

/// Extracts the extension of a path string, not yet lowercased.
pub fn extension_of(p: &str) -> (r: Option<String>)
    ensures
        match r {
            Some(e) => exists|j: int|
                is_extension_at(p@, j) && e@ == p@.subrange(j + 1, p@.len() as int),
            None => forall|j: int| !is_extension_at(p@, j),
        },
{
    let n: usize = p.unicode_len();
    let mut i: usize = n;
    while i > 0
        invariant
            n == p@.len(),
            i <= n,
            forall|k: int| i <= k < n ==> p@[k] != '.' && p@[k] != '/',
        decreases i,
    {
        let c = p.get_char(i - 1);
        if c == '/' {
            return None;
        }
        if c == '.' {
            let j: usize = i - 1;
            if j >= 1 && p.get_char(j - 1) != '/' {
                let e = p.substring_char(i, n).to_owned();
                proof {
                    assert(is_extension_at(p@, j as int));
                }
                return Some(e);
            }
            return None;
        }
        i -= 1;
    }
    None
}

} // verus!

