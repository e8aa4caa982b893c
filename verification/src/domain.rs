//! The values that a subscriber is made of: an email address and a name,
//! each with the grammar that it must follow.

use vstd::prelude::*;
use vstd::string::StringExecFns;

verus! {

/// The longest local part of an address, in characters.
pub const MAX_LOCAL_LENGTH: usize = 64;

/// The longest domain of an address, in characters.
pub const MAX_DOMAIN_LENGTH: usize = 255;

/// The longest subscriber name, in characters.
pub const MAX_NAME_LENGTH: usize = 256;

/// An ASCII letter or digit.
pub open spec fn is_alphanumeric(c: char) -> bool {
    ||| 'a' <= c <= 'z'
    ||| 'A' <= c <= 'Z'
    ||| '0' <= c <= '9'
}

/// A character that may stand before the `@` of an address.
pub open spec fn is_local_char(c: char) -> bool {
    ||| is_alphanumeric(c)
    ||| c == '.'
    ||| c == '!'
    ||| c == '#'
    ||| c == '$'
    ||| c == '%'
    ||| c == '&'
    ||| c == '\''
    ||| c == '*'
    ||| c == '+'
    ||| c == '/'
    ||| c == '='
    ||| c == '?'
    ||| c == '^'
    ||| c == '_'
    ||| c == '`'
    ||| c == '{'
    ||| c == '|'
    ||| c == '}'
    ||| c == '~'
    ||| c == '-'
}

/// A character that may stand after the `@` of an address.
pub open spec fn is_domain_char(c: char) -> bool {
    is_alphanumeric(c) || c == '-' || c == '.'
}

/// A local part: one to [`MAX_LOCAL_LENGTH`] characters of the local
/// alphabet.
pub open spec fn is_valid_local(s: Seq<char>) -> bool {
    &&& 1 <= s.len() <= MAX_LOCAL_LENGTH
    &&& forall|i: int| 0 <= i < s.len() ==> is_local_char(#[trigger] s[i])
}

/// A domain: one to [`MAX_DOMAIN_LENGTH`] characters of the domain
/// alphabet, made of labels that are joined by single dots and that each
/// begin and end with a letter or a digit.
pub open spec fn is_valid_domain(s: Seq<char>) -> bool {
    &&& 1 <= s.len() <= MAX_DOMAIN_LENGTH
    &&& forall|i: int| 0 <= i < s.len() ==> is_domain_char(#[trigger] s[i])
    &&& is_alphanumeric(s[0])
    &&& is_alphanumeric(s[s.len() - 1])
    &&& forall|i: int|
        0 < i < s.len() - 1 && #[trigger] s[i] == '.' ==> is_alphanumeric(s[i - 1])
            && is_alphanumeric(s[i + 1])
}

/// Whether `s` splits at position `at` into a local part, `@` and a domain.
pub open spec fn splits_at(s: Seq<char>, at: int) -> bool {
    &&& 0 <= at < s.len()
    &&& s[at] == '@'
    &&& is_valid_local(s.subrange(0, at))
    &&& is_valid_domain(s.subrange(at + 1, s.len() as int))
}

/// Whether `s` is an address that mail can be sent to.
pub open spec fn is_valid_email(s: Seq<char>) -> bool {
    exists|at: int| splits_at(s, at)
}

fn alphanumeric(c: char) -> (yes: bool)
    ensures
        yes == is_alphanumeric(c),
{
    ('a' <= c && c <= 'z') || ('A' <= c && c <= 'Z') || ('0' <= c && c <= '9')
}

fn local_char(c: char) -> (yes: bool)
    ensures
        yes == is_local_char(c),
{
    alphanumeric(c) || c == '.' || c == '!' || c == '#' || c == '$' || c == '%' || c == '&' || c
        == '\'' || c == '*' || c == '+' || c == '/' || c == '=' || c == '?' || c == '^' || c == '_'
        || c == '`' || c == '{' || c == '|' || c == '}' || c == '~' || c == '-'
}

/// Checks `s` against the address grammar.
pub fn check_email(s: &str) -> (valid: bool)
    ensures
        valid == is_valid_email(s@),
{
    let n = s.unicode_len();
    if n > MAX_LOCAL_LENGTH + 1 + MAX_DOMAIN_LENGTH {
        assert forall|at: int| !splits_at(s@, at) by {}
        return false;
    }
    // The local part holds no `@`, so the split can only be at the first one.
    let mut at: usize = 0;
    while at < n && s.get_char(at) != '@'
        invariant
            n == s@.len(),
            at <= n,
            forall|j: int| 0 <= j < at ==> #[trigger] s@[j] != '@',
        decreases n - at,
    {
        at += 1;
    }
    assert forall|other: int| other != at implies !splits_at(s@, other) by {
        if splits_at(s@, other) {
            if other < at {
                assert(s@[other] != '@');
            } else {
                assert(s@.subrange(0, other)[at as int] == s@[at as int]);
                assert(!is_local_char('@'));
            }
        }
    }
    if at >= n || at == 0 || at > MAX_LOCAL_LENGTH {
        return false;
    }
    let ghost local = s@.subrange(0, at as int);
    let mut i: usize = 0;
    while i < at
        invariant
            n == s@.len(),
            i <= at < n,
            forall|other: int| other != at ==> !splits_at(s@, other),
            local == s@.subrange(0, at as int),
            forall|j: int| 0 <= j < i ==> is_local_char(#[trigger] local[j]),
        decreases at - i,
    {
        if !local_char(s.get_char(i)) {
            assert(!is_local_char(local[i as int]));
            return false;
        }
        i += 1;
    }
    assert(is_valid_local(local));
    let start = at + 1;
    let ghost domain = s@.subrange(start as int, n as int);
    if start >= n {
        return false;
    }
    let mut k: usize = start;
    let mut previous = '.';
    while k < n
        invariant
            n == s@.len(),
            start <= k <= n,
            start < n,
            n <= MAX_LOCAL_LENGTH + 1 + MAX_DOMAIN_LENGTH,
            start == at + 1,
            forall|other: int| other != at ==> !splits_at(s@, other),
            domain == s@.subrange(start as int, n as int),
            previous == if k == start {
                '.'
            } else {
                s@[k - 1]
            },
            forall|j: int| 0 <= j < k - start ==> is_domain_char(#[trigger] domain[j]),
            k > start ==> is_alphanumeric(domain[0]),
            forall|j: int|
                0 < j < k - start && #[trigger] domain[j] == '.' ==> is_alphanumeric(domain[j - 1])
                    && (j + 1 < k - start ==> is_alphanumeric(domain[j + 1])),
        decreases n - k,
    {
        let c = s.get_char(k);
        let ghost j = k - start;
        assert(domain[j] == c);
        if c == '.' {
            if !alphanumeric(previous) {
                // An empty label, or a label that ends with a hyphen.
                proof {
                    if k == start {
                        assert(!is_alphanumeric(domain[0]));
                    } else {
                        assert(domain[j - 1] == previous);
                    }
                }
                return false;
            }
        } else if c == '-' {
            if previous == '.' {
                // A label that begins with a hyphen.
                proof {
                    if k == start {
                        assert(!is_alphanumeric(domain[0]));
                    } else {
                        assert(domain[j - 1] == '.');
                        assert(!is_alphanumeric(domain[j - 1 + 1]));
                    }
                }
                return false;
            }
        } else if !alphanumeric(c) {
            assert(!is_domain_char(domain[j]));
            return false;
        }
        previous = c;
        k += 1;
    }
    if !alphanumeric(previous) {
        assert(domain[domain.len() - 1] == previous);
        return false;
    }
    if n - start > MAX_DOMAIN_LENGTH {
        return false;
    }
    assert(domain[domain.len() - 1] == previous);
    assert(is_valid_domain(domain));
    assert(splits_at(s@, at as int));
    true
}

/// An address that mail can be sent to. Every value satisfies
/// [`is_valid_email`].
#[derive(Debug)]
pub struct SubscriberEmail {
    address: String,
}

impl View for SubscriberEmail {
    type V = Seq<char>;

    closed spec fn view(&self) -> Seq<char> {
        self.address@
    }
}

impl SubscriberEmail {
    #[verifier::type_invariant]
    spec fn well_formed(self) -> bool {
        is_valid_email(self.address@)
    }

    /// Accepts `s` as an address, or says that it is none.
    pub fn parse(s: String) -> (parsed: Result<SubscriberEmail, String>)
        ensures
            match parsed {
                Ok(email) => is_valid_email(s@) && email@ == s@,
                Err(message) => !is_valid_email(s@) && message@ == s@
                    + " is not a valid subscriber email."@,
            },
    {
        if check_email(s.as_str()) {
            Ok(SubscriberEmail { address: s })
        } else {
            Err(s.concat(" is not a valid subscriber email."))
        }
    }

    /// The address as text.
    pub fn as_str(&self) -> (text: &str)
        ensures
            text@ == self@,
            is_valid_email(self@),
    {
        proof {
            use_type_invariant(self);
        }
        self.address.as_str()
    }

    /// A copy of the address.
    pub fn duplicate(&self) -> (copy: SubscriberEmail)
        ensures
            copy@ == self@,
    {
        proof {
            use_type_invariant(self);
        }
        SubscriberEmail { address: self.address.clone() }
    }
}

/// A character that the Unicode standard classes as white space.
pub open spec fn is_whitespace(c: char) -> bool {
    ||| '\u{9}' <= c <= '\u{d}'
    ||| c == ' '
    ||| c == '\u{85}'
    ||| c == '\u{a0}'
    ||| c == '\u{1680}'
    ||| '\u{2000}' <= c <= '\u{200a}'
    ||| c == '\u{2028}'
    ||| c == '\u{2029}'
    ||| c == '\u{202f}'
    ||| c == '\u{205f}'
    ||| c == '\u{3000}'
}

/// A character that no subscriber name may hold.
pub open spec fn is_forbidden_in_name(c: char) -> bool {
    ||| c == '/'
    ||| c == '('
    ||| c == ')'
    ||| c == '"'
    ||| c == '<'
    ||| c == '>'
    ||| c == '\\'
    ||| c == '{'
    ||| c == '}'
}

/// Whether `s` can be the name of a subscriber: at most
/// [`MAX_NAME_LENGTH`] characters, not all of them white space, none of them
/// forbidden.
pub open spec fn is_valid_name(s: Seq<char>) -> bool {
    &&& s.len() <= MAX_NAME_LENGTH
    &&& exists|i: int| 0 <= i < s.len() && !is_whitespace(#[trigger] s[i])
    &&& forall|i: int| 0 <= i < s.len() ==> !is_forbidden_in_name(#[trigger] s[i])
}

fn whitespace(c: char) -> (yes: bool)
    ensures
        yes == is_whitespace(c),
{
    ('\u{9}' <= c && c <= '\u{d}') || c == ' ' || c == '\u{85}' || c == '\u{a0}' || c
        == '\u{1680}' || ('\u{2000}' <= c && c <= '\u{200a}') || c == '\u{2028}' || c
        == '\u{2029}' || c == '\u{202f}' || c == '\u{205f}' || c == '\u{3000}'
}

fn forbidden_in_name(c: char) -> (yes: bool)
    ensures
        yes == is_forbidden_in_name(c),
{
    c == '/' || c == '(' || c == ')' || c == '"' || c == '<' || c == '>' || c == '\\' || c == '{'
        || c == '}'
}

/// Checks `s` against the rules for subscriber names.
pub fn check_name(s: &str) -> (valid: bool)
    ensures
        valid == is_valid_name(s@),
{
    let n = s.unicode_len();
    if n > MAX_NAME_LENGTH {
        return false;
    }
    let mut visible = false;
    let mut i: usize = 0;
    while i < n
        invariant
            n == s@.len(),
            i <= n,
            visible <==> exists|j: int| 0 <= j < i && !is_whitespace(#[trigger] s@[j]),
            forall|j: int| 0 <= j < i ==> !is_forbidden_in_name(#[trigger] s@[j]),
        decreases n - i,
    {
        let c = s.get_char(i);
        if forbidden_in_name(c) {
            assert(is_forbidden_in_name(s@[i as int]));
            return false;
        }
        if !whitespace(c) {
            assert(!is_whitespace(s@[i as int]));
            visible = true;
        }
        i += 1;
    }
    visible
}

/// The name of a subscriber. Every value satisfies [`is_valid_name`].
#[derive(Debug)]
pub struct SubscriberName {
    name: String,
}

impl View for SubscriberName {
    type V = Seq<char>;

    closed spec fn view(&self) -> Seq<char> {
        self.name@
    }
}

impl SubscriberName {
    #[verifier::type_invariant]
    spec fn well_formed(self) -> bool {
        is_valid_name(self.name@)
    }

    /// Accepts `s` as a name, or says that it is none.
    pub fn parse(s: String) -> (parsed: Result<SubscriberName, String>)
        ensures
            match parsed {
                Ok(name) => is_valid_name(s@) && name@ == s@,
                Err(message) => !is_valid_name(s@) && message@ == s@
                    + " is not a valid subscriber name."@,
            },
    {
        if check_name(s.as_str()) {
            Ok(SubscriberName { name: s })
        } else {
            Err(s.concat(" is not a valid subscriber name."))
        }
    }

    /// The name as text.
    pub fn as_str(&self) -> (text: &str)
        ensures
            text@ == self@,
            is_valid_name(self@),
    {
        proof {
            use_type_invariant(self);
        }
        self.name.as_str()
    }
}

/// A subscriber whose address and name have been validated.
#[derive(Debug)]
pub struct NewSubscriber {
    pub email: SubscriberEmail,
    pub name: SubscriberName,
}

} // verus!
