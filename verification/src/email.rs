//! Well-formedness of recipient addresses.
//!
//! An address is well formed when it reads `local@domain`, where `local` is a
//! non-empty run of address-text characters and dots, and `domain` is a list
//! of dot-separated labels: each label holds one to sixty-three letters,
//! digits and hyphens, and neither begins nor ends with a hyphen.

use vstd::prelude::*;
use vstd::string::*;

verus! {

/// The longest label a domain may hold.
pub const MAX_LABEL_LEN: usize = 63;

const AT_SIGN: u8 = 0x40;

const DOT: u8 = 0x2e;

const HYPHEN: u8 = 0x2d;

/// A letter or a digit of ASCII.
pub open spec fn is_let_dig(c: char) -> bool {
    ('a' <= c && c <= 'z') || ('A' <= c && c <= 'Z') || ('0' <= c && c <= '9')
}

/// A character that may stand in the local part, the dot aside.
pub open spec fn is_atext(c: char) -> bool {
    is_let_dig(c) || c == '!' || c == '#' || c == '$' || c == '%' || c == '&' || c == '\''
        || c == '*' || c == '+' || c == '-' || c == '/' || c == '=' || c == '?' || c == '^'
        || c == '_' || c == '`' || c == '{' || c == '|' || c == '}' || c == '~'
}

/// A character that may stand in a domain.
pub open spec fn is_domain_char(c: char) -> bool {
    is_let_dig(c) || c == '-' || c == '.'
}

/// What may stand before the `@`.
pub open spec fn is_local_part(s: Seq<char>) -> bool {
    &&& s.len() > 0
    &&& forall|i: int| 0 <= i < s.len() ==> is_atext(#[trigger] s[i]) || s[i] == '.'
}

/// No dot stands in `s` from `from` up to, not including, `to`.
pub open spec fn dot_free(s: Seq<char>, from: int, to: int) -> bool {
    forall|k: int| from <= k < to ==> #[trigger] s[k] != '.'
}

/// A label starts at index `i`: at the front and after each dot.
pub open spec fn starts_label(s: Seq<char>, i: int) -> bool {
    i == 0 || s[i - 1] == '.'
}

/// A label ends at index `i`: at the back and before each dot.
pub open spec fn ends_label(s: Seq<char>, i: int) -> bool {
    i == s.len() - 1 || s[i + 1] == '.'
}

/// What may stand after the `@`: labels separated by single dots. Where a
/// label starts and where it ends stands a letter or a digit, and no stretch
/// without a dot is longer than a label may be.
pub open spec fn is_domain(s: Seq<char>) -> bool {
    &&& s.len() > 0
    &&& forall|i: int| 0 <= i < s.len() ==> is_domain_char(#[trigger] s[i])
    &&& forall|i: int| 0 <= i < s.len() && #[trigger] starts_label(s, i) ==> is_let_dig(s[i])
    &&& forall|i: int| 0 <= i < s.len() && #[trigger] ends_label(s, i) ==> is_let_dig(s[i])
    &&& forall|i: int, j: int|
        0 <= i <= j <= s.len() && #[trigger] dot_free(s, i, j) ==> j - i <= MAX_LABEL_LEN
}

/// The `@` at index `at` parts `s` into a local part and a domain.
pub open spec fn splits_at(s: Seq<char>, at: int) -> bool {
    &&& 0 <= at < s.len()
    &&& s[at] == '@'
    &&& is_local_part(s.subrange(0, at))
    &&& is_domain(s.subrange(at + 1, s.len() as int))
}

/// The rule for recipient addresses.
pub open spec fn well_formed(s: Seq<char>) -> bool {
    exists|at: int| #[trigger] splits_at(s, at)
}

/// Only the first `@` of an address can part it: an earlier index holds no
/// `@`, and a later one would leave this `@` inside the local part.
pub proof fn lemma_only_first_at_splits(s: Seq<char>, at: int)
    requires
        0 <= at < s.len(),
        s[at] == '@',
        forall|i: int| 0 <= i < at ==> #[trigger] s[i] != '@',
    ensures
        well_formed(s) == splits_at(s, at),
{
    if well_formed(s) {
        let other = choose|other: int| #[trigger] splits_at(s, other);
        if other > at {
            let local = s.subrange(0, other);
            assert(!is_atext(local[at]));
        }
    }
}

/// An address with a character beyond ASCII is not well formed.
pub proof fn lemma_well_formed_is_ascii(s: Seq<char>)
    requires
        well_formed(s),
    ensures
        vstd::utf8::is_ascii_chars(s),
{
    let at = choose|at: int| #[trigger] splits_at(s, at);
    let local = s.subrange(0, at);
    let domain = s.subrange(at + 1, s.len() as int);
    assert forall|i: int| 0 <= i < s.len() implies '\0' <= #[trigger] s[i] <= '\u{7f}' by {
        if i < at {
            assert(is_atext(local[i]) || local[i] == '.');
        } else if i > at {
            assert(is_domain_char(domain[i - at - 1]));
        }
    }
}

fn byte_is_let_dig(b: u8) -> (r: bool)
    ensures
        r == is_let_dig(b as char),
{
    (0x61 <= b && b <= 0x7a) || (0x41 <= b && b <= 0x5a) || (0x30 <= b && b <= 0x39)
}

fn byte_is_atext(b: u8) -> (r: bool)
    ensures
        r == is_atext(b as char),
{
    // In the order of the code points: `!`, `#` to `'`, `*` and `+`, `-`, `/`,
    // `=`, `?`, `^` to backtick, `{` to `~`.
    byte_is_let_dig(b) || b == 0x21 || (0x23 <= b && b <= 0x27) || b == 0x2a || b == 0x2b
        || b == HYPHEN || b == 0x2f || b == 0x3d || b == 0x3f || (0x5e <= b && b <= 0x60) || (0x7b
        <= b && b <= 0x7e)
}

/// The index of the first `@` of `bytes`, if what stands before it is a local
/// part.
fn scan_local_part(bytes: &[u8], Ghost(s): Ghost<Seq<char>>) -> (at: Option<usize>)
    requires
        s.len() == bytes@.len(),
        forall|i: int| 0 <= i < s.len() ==> #[trigger] s[i] == bytes@[i] as char,
    ensures
        match at {
            Some(at) => {
                &&& at < s.len()
                &&& s[at as int] == '@'
                &&& is_local_part(s.subrange(0, at as int))
                &&& forall|i: int| 0 <= i < at ==> #[trigger] s[i] != '@'
            },
            None => !well_formed(s),
        },
{
    let n = bytes.len();
    let mut i: usize = 0;
    while i < n && bytes[i] != AT_SIGN
        invariant
            n == bytes@.len(),
            s.len() == n,
            0 <= i <= n,
            forall|k: int| 0 <= k < s.len() ==> #[trigger] s[k] == bytes@[k] as char,
            forall|k: int| 0 <= k < i ==> is_atext(#[trigger] s[k]) || s[k] == '.',
        decreases n - i,
    {
        let b = bytes[i];
        if !(byte_is_atext(b) || b == DOT) {
            proof {
                assert forall|at: int| !#[trigger] splits_at(s, at) by {
                    if splits_at(s, at) && at > i {
                        assert(s.subrange(0, at)[i as int] == s[i as int]);
                    }
                }
            }
            return None;
        }
        i += 1;
    }
    if i == n || i == 0 {
        proof {
            assert forall|at: int| !#[trigger] splits_at(s, at) by {
                if splits_at(s, at) && at > 0 && i == 0 {
                    assert(s[0] == bytes@[0] as char);
                    assert(s.subrange(0, at)[0] == s[0]);
                }
            }
        }
        return None;
    }
    proof {
        assert(s[i as int] == bytes@[i as int] as char);
        assert(is_local_part(s.subrange(0, i as int)));
    }
    Some(i)
}

/// Whether `bytes` from `start` on are a domain.
fn scan_domain(bytes: &[u8], start: usize, Ghost(d): Ghost<Seq<char>>) -> (ok: bool)
    requires
        start <= bytes@.len(),
        d.len() == bytes@.len() - start,
        forall|k: int| 0 <= k < d.len() ==> #[trigger] d[k] == bytes@[start + k] as char,
    ensures
        ok == is_domain(d),
{
    let n = bytes.len();
    if start == n {
        return false;
    }
    let mut j: usize = start;
    let mut run: usize = 0;
    let mut prev_let_dig: bool = false;
    while j < n
        invariant
            n == bytes@.len(),
            start <= j <= n,
            start < n,
            d.len() == n - start,
            forall|k: int| 0 <= k < d.len() ==> #[trigger] d[k] == bytes@[start + k] as char,
            forall|k: int| 0 <= k < j - start ==> is_domain_char(#[trigger] d[k]),
            forall|k: int| 0 <= k < j - start && #[trigger] starts_label(d, k) ==> is_let_dig(d[k]),
            forall|k: int|
                0 <= k && k + 1 < j - start && #[trigger] ends_label(d, k) ==> is_let_dig(d[k]),
            j > start ==> prev_let_dig == is_let_dig(d[j - start - 1]),
            run <= MAX_LABEL_LEN,
            run <= j - start,
            dot_free(d, j - start - run, j - start),
            run < j - start ==> d[j - start - run - 1] == '.',
            forall|a: int, b: int|
                0 <= a <= b <= j - start && #[trigger] dot_free(d, a, b) ==> b - a
                    <= MAX_LABEL_LEN,
        decreases n - j,
    {
        let b = bytes[j];
        let ghost k = j - start;
        let let_dig = byte_is_let_dig(b);
        if !(let_dig || b == HYPHEN || b == DOT) {
            assert(!is_domain_char(d[k]));
            return false;
        }
        if (j == start || bytes[j - 1] == DOT) && !let_dig {
            proof {
                if j > start {
                    assert(d[k - 1] == bytes@[start + k - 1] as char);
                }
                assert(starts_label(d, k) && !is_let_dig(d[k]));
            }
            return false;
        }
        if b == DOT {
            if !prev_let_dig {
                assert(ends_label(d, k - 1) && !is_let_dig(d[k - 1]));
                return false;
            }
            run = 0;
        } else {
            if run == MAX_LABEL_LEN {
                proof {
                    assert(dot_free(d, k - run, k + 1));
                }
                return false;
            }
            run += 1;
        }
        proof {
            if j > start {
                assert(d[k - 1] == bytes@[start + k - 1] as char);
            }
            assert forall|a: int, b2: int|
                0 <= a <= b2 <= k + 1 && #[trigger] dot_free(d, a, b2) implies b2 - a
                <= MAX_LABEL_LEN by {
                if b2 == k + 1 && a < k + 1 - run {
                    assert(d[k + 1 - run - 1] == '.');
                }
            }
        }
        prev_let_dig = let_dig;
        j += 1;
    }
    if !prev_let_dig {
        assert(ends_label(d, d.len() - 1) && !is_let_dig(d[d.len() - 1]));
        return false;
    }
    true
}

/// Decides the rule for recipient addresses.
pub fn is_well_formed(address: &str) -> (ok: bool)
    ensures
        ok == well_formed(address@),
{
    if !address.is_ascii() {
        proof {
            if well_formed(address@) {
                lemma_well_formed_is_ascii(address@);
            }
        }
        return false;
    }
    let bytes = address.as_bytes();
    let n = bytes.len();
    let ghost s = address@;
    proof {
        is_ascii_spec_bytes(address);
        assert forall|i: int| 0 <= i < s.len() implies #[trigger] s[i] == bytes@[i] as char by {
            assert(bytes@[i] == s[i] as u8);
        }
    }
    match scan_local_part(bytes, Ghost(s)) {
        None => false,
        Some(at) => {
            let ghost d = s.subrange(at + 1, s.len() as int);
            proof {
                lemma_only_first_at_splits(s, at as int);
            }
            assert(at < n);
            scan_domain(bytes, at + 1, Ghost(d))
        },
    }
}

} // verus!
