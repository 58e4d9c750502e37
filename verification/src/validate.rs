//! Input validation for account registration: the email and password
//! grammars, stated as predicates over character sequences and checked
//! by verified scanners.

use crate::codec::is_digit;
use vstd::prelude::*;
use vstd::string::StrSliceExecFns;

verus! {

/// An ASCII letter.
pub open spec fn is_ascii_alpha(c: char) -> bool {
    (65 <= c as u32 <= 90) || (97 <= c as u32 <= 122)
}

/// An ASCII letter or digit.
pub open spec fn is_ascii_alnum(c: char) -> bool {
    is_ascii_alpha(c) || is_digit(c)
}

/// A character allowed in the local part of an email address.
pub open spec fn is_local_char(c: char) -> bool {
    is_ascii_alnum(c) || c == '.' || c == '_' || c == '%' || c == '+' || c == '-'
}

/// A character allowed in the domain of an email address.
pub open spec fn is_domain_char(c: char) -> bool {
    is_ascii_alnum(c) || c == '.' || c == '-'
}

/// A character allowed in a password.
pub open spec fn is_password_char(c: char) -> bool {
    is_ascii_alnum(c) || c == '@' || c == '_' || c == '-' || c == '$' || c == '+' || c == '!'
        || c == '*'
}

/// A well-formed password: non-empty, made of password characters
/// only.
pub open spec fn password_ok(s: Seq<char>) -> bool {
    s.len() > 0 && forall|i: int| 0 <= i < s.len() ==> is_password_char(#[trigger] s[i])
}

/// Is `s` an email address split at positions `a` (the separator) and
/// `d` (the last dot): a non-empty local part, then `@`, then a
/// non-empty domain, then `.`, then a top-level domain of at least two
/// letters?
pub open spec fn email_split_at(s: Seq<char>, a: int, d: int) -> bool {
    &&& 1 <= a
    &&& a + 2 <= d
    &&& d + 3 <= s.len()
    &&& s[a] == '@'
    &&& s[d] == '.'
    &&& (forall|i: int| 0 <= i < a ==> is_local_char(#[trigger] s[i]))
    &&& (forall|i: int| a < i < d ==> is_domain_char(#[trigger] s[i]))
    &&& (forall|i: int| d < i < s.len() ==> is_ascii_alpha(#[trigger] s[i]))
}

/// A well-formed email address: it splits somewhere into local part,
/// separator, domain, dot, and top-level domain.
pub open spec fn email_ok(s: Seq<char>) -> bool {
    exists|a: int, d: int| #[trigger] email_split_at(s, a, d)
}

/// Check that `haystack` is a well-formed email address.
#[verifier::loop_isolation(false)]
pub fn validate_email(haystack: &str) -> (r: bool)
    ensures
        r == email_ok(haystack@),
{
    let ghost s = haystack@;
    let n = haystack.unicode_len();
    // Find the separator, checking the local part on the way.  In a
    // well-formed address the split position is forced: no local,
    // domain or top-level-domain character is an `@`.
    let mut i: usize = 0;
    #[verifier::loop_isolation(true)]
    loop
        invariant
            0 <= i <= n,
            n == s.len(),
            s == haystack@,
            forall|k: int| 0 <= k < i ==> is_local_char(#[trigger] s[k]),
        ensures
            0 <= i < n,
            s[i as int] == '@',
            forall|k: int| 0 <= k < i ==> is_local_char(#[trigger] s[k]),
        decreases n - i,
    {
        if i == n {
            proof {
                assert forall|a: int, d: int| !email_split_at(s, a, d) by {
                    if email_split_at(s, a, d) {
                        assert(is_local_char(s[a]) || is_domain_char(s[a]));
                    }
                }
            }
            return false;
        }
        let c = haystack.get_char(i);
        if c == '@' {
            break ;
        }
        let u = c as u32;
        let local = (48 <= u && u <= 57) || (65 <= u && u <= 90) || (97 <= u && u <= 122) || c
            == '.' || c == '_' || c == '%' || c == '+' || c == '-';
        if !local {
            proof {
                assert forall|a: int, d: int| !email_split_at(s, a, d) by {
                    if email_split_at(s, a, d) {
                        if a < i {
                            assert(is_local_char(s[a]));
                        } else if a == i {
                            assert(s[i as int] == '@');
                        } else {
                            assert(is_local_char(s[i as int]));
                        }
                    }
                }
            }
            return false;
        }
        i = i + 1;
    }
    let at = i;
    // The separator was found at `at`, and everything before it is a
    // local character; in particular there is no earlier `@`.
    if at == 0 {
        proof {
            assert forall|a: int, d: int| !email_split_at(s, a, d) by {
                if email_split_at(s, a, d) {
                    assert(is_local_char(s[0]));
                }
            }
        }
        return false;
    }
    // In any well-formed split of `s` the separator position is
    // forced to `at`.
    proof {
        assert forall|a: int, d: int| email_split_at(s, a, d) implies a == at as int by {
            if a < at {
                assert(is_local_char(s[a]));
            } else if a > at {
                assert(is_local_char(s[at as int]));
            }
        }
    }
    // Scan the rest: everything after the separator must be a domain
    // character (letters of the top-level domain included), and the
    // last dot marks the final split.
    let mut j: usize = at + 1;
    let mut last_dot: usize = 0;
    let mut has_dot: bool = false;
    while j < n
        invariant
            at < j <= n,
            forall|k: int| at < k < j ==> is_domain_char(#[trigger] s[k]),
            has_dot ==> at < last_dot < j && s[last_dot as int] == '.',
            forall|k: int| at < k < j && s[k] == '.' ==> has_dot && k <= last_dot,
        decreases n - j,
    {
        let c = haystack.get_char(j);
        let u = c as u32;
        let domainish = (48 <= u && u <= 57) || (65 <= u && u <= 90) || (97 <= u && u <= 122) || c
            == '.' || c == '-';
        if !domainish {
            proof {
                assert forall|a: int, d: int| !email_split_at(s, a, d) by {
                    if email_split_at(s, a, d) {
                        if j < d {
                            assert(is_domain_char(s[j as int]));
                        } else if j == d {
                            assert(s[j as int] == '.');
                        } else {
                            assert(is_ascii_alpha(s[j as int]));
                        }
                    }
                }
            }
            return false;
        }
        if c == '.' {
            last_dot = j;
            has_dot = true;
        }
        j = j + 1;
    }
    // In a well-formed address the last dot is forced too: everything
    // after the witness dot is a letter, and letters are not dots.
    proof {
        assert forall|a: int, d: int| email_split_at(s, a, d) implies d == last_dot as int
            && has_dot by {
            assert(has_dot && d <= last_dot) by {
                assert(s[d] == '.');
            }
            if d < last_dot {
                assert(is_ascii_alpha(s[last_dot as int]));
            }
        }
    }
    if !has_dot {
        return false;
    }
    if last_dot - at < 2 || n - last_dot < 3 {
        return false;
    }
    // Check the top-level domain: at least two characters, letters
    // only.
    let mut k: usize = last_dot + 1;
    while k < n
        invariant
            last_dot < k <= n,
            forall|t: int| last_dot < t < k ==> is_ascii_alpha(#[trigger] s[t]),
        decreases n - k,
    {
        let c = haystack.get_char(k);
        let u = c as u32;
        if !((65 <= u && u <= 90) || (97 <= u && u <= 122)) {
            proof {
                assert forall|a: int, d: int| !email_split_at(s, a, d) by {
                    if email_split_at(s, a, d) {
                        assert(is_ascii_alpha(s[k as int]));
                    }
                }
            }
            return false;
        }
        k = k + 1;
    }
    proof {
        assert(email_split_at(s, at as int, last_dot as int));
    }
    true
}

/// Check that `haystack` is a well-formed password.
#[verifier::loop_isolation(false)]
pub fn validate_passowrd(haystack: &str) -> (r: bool)
    ensures
        r == password_ok(haystack@),
{
    let ghost s = haystack@;
    let n = haystack.unicode_len();
    if n == 0 {
        return false;
    }
    let mut i: usize = 0;
    while i < n
        invariant
            0 <= i <= n,
            forall|k: int| 0 <= k < i ==> is_password_char(#[trigger] s[k]),
        decreases n - i,
    {
        let c = haystack.get_char(i);
        let u = c as u32;
        let ok = (48 <= u && u <= 57) || (65 <= u && u <= 90) || (97 <= u && u <= 122) || c == '@'
            || c == '_' || c == '-' || c == '$' || c == '+' || c == '!' || c == '*';
        if !ok {
            return false;
        }
        i = i + 1;
    }
    true
}

} // verus!
