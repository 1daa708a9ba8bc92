//! The rules a tag name has to satisfy.
//!
//! They follow the restrictions that version-control systems put on reference
//! names, so that a tag is safe as a path segment and cannot be mistaken for a
//! relative or special reference.

use vstd::prelude::*;
use vstd::string::*;
use crate::error::Error;
use crate::text::chars_of;

verus! {

/// One rule of the naming scheme. The variants stand in the order in which the
/// rules are checked.
#[derive(Debug, Clone, Copy, PartialEq, Eq, Structural)]
pub enum RefRule {
    /// The name is not empty.
    NonEmpty,
    /// No slash-separated component starts with `.` or ends with `.lock`.
    Components,
    /// The name holds no `..`.
    NoDoubleDot,
    /// The name holds no ASCII control character, space, `~`, `^` or `:`.
    NoForbiddenChar,
    /// The name holds none of `?`, `*`, `[`.
    NoWildcard,
    /// The name neither starts nor ends with `/` and holds no `//`.
    Slashes,
    /// The name does not end with `.`.
    NoTrailingDot,
    /// The name holds no `@{`.
    NoAtBrace,
    /// The name is not the single character `@`.
    NotLoneAt,
    /// The name holds no `\`.
    NoBackslash,
}

/// `c` is an ASCII control character.
pub open spec fn is_ascii_control(c: char) -> bool {
    c <= '\u{1f}' || c == '\u{7f}'
}

/// `c` may not occur anywhere in a name: a control character, a space or one
/// of `~`, `^`, `:`.
pub open spec fn is_forbidden_char(c: char) -> bool {
    is_ascii_control(c) || c == ' ' || c == '~' || c == '^' || c == ':'
}

/// `x` directly followed by `y` occurs in `s` at index `i`.
pub open spec fn pair_at(s: Seq<char>, x: char, y: char, i: int) -> bool {
    0 <= i && i + 1 < s.len() && s[i] == x && s[i + 1] == y
}

/// `x` directly followed by `y` occurs somewhere in `s`.
pub open spec fn has_pair(s: Seq<char>, x: char, y: char) -> bool {
    exists|i: int| pair_at(s, x, y, i)
}

/// `s[a..b]` is one of the components that the slashes of `s` separate: it is
/// bounded by a slash or an end of `s` on each side and holds no slash itself.
pub open spec fn is_component(s: Seq<char>, a: int, b: int) -> bool {
    &&& 0 <= a <= b <= s.len()
    &&& (a == 0 || s[a - 1] == '/')
    &&& (b == s.len() || s[b] == '/')
    &&& forall|k: int| a <= k < b ==> s[k] != '/'
}

/// The text `.lock`.
pub open spec fn lock_suffix() -> Seq<char> {
    seq!['.', 'l', 'o', 'c', 'k']
}

/// A component that no name may hold: one that starts with `.` or ends with
/// `.lock`.
pub open spec fn bad_component(c: Seq<char>) -> bool {
    (c.len() > 0 && c[0] == '.') || lock_suffix().is_suffix_of(c)
}

/// Some component of `s` is a bad one.
pub open spec fn has_bad_component(s: Seq<char>) -> bool {
    exists|a: int, b: int| #[trigger] is_component(s, a, b) && bad_component(s.subrange(a, b))
}

impl RefRule {
    /// Whether the name `s` satisfies this rule.
    pub open spec fn holds(self, s: Seq<char>) -> bool {
        match self {
            RefRule::NonEmpty => s.len() > 0,
            RefRule::Components => !has_bad_component(s),
            RefRule::NoDoubleDot => !has_pair(s, '.', '.'),
            RefRule::NoForbiddenChar => forall|i: int|
                0 <= i < s.len() ==> !is_forbidden_char(#[trigger] s[i]),
            RefRule::NoWildcard => !s.contains('?') && !s.contains('*') && !s.contains('['),
            RefRule::Slashes => {
                &&& !(s.len() > 0 && s.first() == '/')
                &&& !(s.len() > 0 && s.last() == '/')
                &&& !has_pair(s, '/', '/')
            },
            RefRule::NoTrailingDot => !(s.len() > 0 && s.last() == '.'),
            RefRule::NoAtBrace => !has_pair(s, '@', '{'),
            RefRule::NotLoneAt => s != seq!['@'],
            RefRule::NoBackslash => !s.contains('\\'),
        }
    }

    /// The sentence that names this rule when it is broken.
    pub open spec fn spec_message(self) -> Seq<char> {
        match self {
            RefRule::NonEmpty => "Ref cannot be empty"@,
            RefRule::Components => "Slash-separated ref cannot begin with a dot or end with .lock"@,
            RefRule::NoDoubleDot => "Ref cannot have two consecutive dots"@,
            RefRule::NoForbiddenChar => "Ref cannot have ASCII control characters, space, ~, ^, or :"@,
            RefRule::NoWildcard => "Ref cannot have question-mark, asterisk, or open bracket"@,
            RefRule::Slashes => "Ref cannot begin or end with a slash or contain multiple consecutive slashes"@,
            RefRule::NoTrailingDot => "Ref cannot end with a dot"@,
            RefRule::NoAtBrace => "Ref cannot contain a sequence @{"@,
            RefRule::NotLoneAt => "Ref cannot be the single character @"@,
            RefRule::NoBackslash => "Ref cannot contain a backslash"@,
        }
    }

    /// The sentence that names this rule when it is broken.
    pub fn message(&self) -> (m: String)
        ensures
            m@ == self.spec_message(),
    {
        match self {
            RefRule::NonEmpty => String::from_str("Ref cannot be empty"),
            RefRule::Components => String::from_str(
                "Slash-separated ref cannot begin with a dot or end with .lock",
            ),
            RefRule::NoDoubleDot => String::from_str("Ref cannot have two consecutive dots"),
            RefRule::NoForbiddenChar => String::from_str(
                "Ref cannot have ASCII control characters, space, ~, ^, or :",
            ),
            RefRule::NoWildcard => String::from_str(
                "Ref cannot have question-mark, asterisk, or open bracket",
            ),
            RefRule::Slashes => String::from_str(
                "Ref cannot begin or end with a slash or contain multiple consecutive slashes",
            ),
            RefRule::NoTrailingDot => String::from_str("Ref cannot end with a dot"),
            RefRule::NoAtBrace => String::from_str("Ref cannot contain a sequence @{"),
            RefRule::NotLoneAt => String::from_str("Ref cannot be the single character @"),
            RefRule::NoBackslash => String::from_str("Ref cannot contain a backslash"),
        }
    }
}

/// A name is valid when it satisfies every rule.
pub open spec fn valid_ref(s: Seq<char>) -> bool {
    forall|rule: RefRule| #[trigger] rule.holds(s)
}

/// The first rule, in checking order, that `s` breaks; `None` for a valid name.
pub open spec fn first_broken_rule(s: Seq<char>) -> Option<RefRule> {
    if !RefRule::NonEmpty.holds(s) {
        Some(RefRule::NonEmpty)
    } else if !RefRule::Components.holds(s) {
        Some(RefRule::Components)
    } else if !RefRule::NoDoubleDot.holds(s) {
        Some(RefRule::NoDoubleDot)
    } else if !RefRule::NoForbiddenChar.holds(s) {
        Some(RefRule::NoForbiddenChar)
    } else if !RefRule::NoWildcard.holds(s) {
        Some(RefRule::NoWildcard)
    } else if !RefRule::Slashes.holds(s) {
        Some(RefRule::Slashes)
    } else if !RefRule::NoTrailingDot.holds(s) {
        Some(RefRule::NoTrailingDot)
    } else if !RefRule::NoAtBrace.holds(s) {
        Some(RefRule::NoAtBrace)
    } else if !RefRule::NotLoneAt.holds(s) {
        Some(RefRule::NotLoneAt)
    } else if !RefRule::NoBackslash.holds(s) {
        Some(RefRule::NoBackslash)
    } else {
        None
    }
}

/// A name is valid exactly when no rule is reported as broken, and a reported
/// rule is one that the name does break.
pub proof fn lemma_first_broken_rule(s: Seq<char>)
    ensures
        valid_ref(s) <==> first_broken_rule(s) is None,
        first_broken_rule(s) matches Some(rule) ==> !rule.holds(s),
{
    if first_broken_rule(s) is None {
        assert forall|rule: RefRule| #[trigger] rule.holds(s) by {
            match rule {
                RefRule::NonEmpty => {},
                RefRule::Components => {},
                RefRule::NoDoubleDot => {},
                RefRule::NoForbiddenChar => {},
                RefRule::NoWildcard => {},
                RefRule::Slashes => {},
                RefRule::NoTrailingDot => {},
                RefRule::NoAtBrace => {},
                RefRule::NotLoneAt => {},
                RefRule::NoBackslash => {},
            }
        }
    }
}

fn contains_char(v: &Vec<char>, c: char) -> (found: bool)
    ensures
        found == v@.contains(c),
{
    let mut i: usize = 0;
    while i < v.len()
        invariant
            i <= v.len(),
            forall|k: int| 0 <= k < i ==> v@[k] != c,
        decreases v.len() - i,
    {
        if v[i] == c {
            return true;
        }
        i += 1;
    }
    false
}

fn contains_pair(v: &Vec<char>, x: char, y: char) -> (found: bool)
    ensures
        found == has_pair(v@, x, y),
{
    let mut i: usize = 1;
    while i < v.len()
        invariant
            1 <= i,
            forall|k: int| 0 <= k && k + 1 < i ==> !pair_at(v@, x, y, k),
        decreases v.len() - i,
    {
        if v[i - 1] == x && v[i] == y {
            assert(pair_at(v@, x, y, i - 1));
            return true;
        }
        i += 1;
    }
    false
}

fn forbidden_char(c: char) -> (b: bool)
    ensures
        b == is_forbidden_char(c),
{
    c <= '\u{1f}' || c == '\u{7f}' || c == ' ' || c == '~' || c == '^' || c == ':'
}

fn contains_forbidden_char(v: &Vec<char>) -> (found: bool)
    ensures
        found == !RefRule::NoForbiddenChar.holds(v@),
{
    let mut i: usize = 0;
    while i < v.len()
        invariant
            i <= v.len(),
            forall|k: int| 0 <= k < i ==> !is_forbidden_char(#[trigger] v@[k]),
        decreases v.len() - i,
    {
        if forbidden_char(v[i]) {
            return true;
        }
        i += 1;
    }
    false
}

/// Whether the component `v[a..b]` starts with `.` or ends with `.lock`.
fn component_is_bad(v: &Vec<char>, a: usize, b: usize) -> (bad: bool)
    requires
        a <= b <= v.len(),
    ensures
        bad == bad_component(v@.subrange(a as int, b as int)),
{
    let ghost c = v@.subrange(a as int, b as int);
    if a < b && v[a] == '.' {
        assert(c[0] == '.');
        return true;
    }
    if b - a >= 5 && v[b - 5] == '.' && v[b - 4] == 'l' && v[b - 3] == 'o' && v[b - 2] == 'c' && v[b
        - 1] == 'k' {
        assert(c.subrange(c.len() - 5, c.len() as int) =~= lock_suffix());
        return true;
    }
    proof {
        if lock_suffix().is_suffix_of(c) {
            let t = c.subrange(c.len() - 5, c.len() as int);
            assert(t == lock_suffix());
            assert(t[0] == '.' && t[1] == 'l' && t[2] == 'o' && t[3] == 'c' && t[4] == 'k');
        }
    }
    false
}

fn contains_bad_component(v: &Vec<char>) -> (found: bool)
    ensures
        found == has_bad_component(v@),
{
    let n = v.len();
    let mut start: usize = 0;
    let mut i: usize = 0;
    loop
        invariant
            n == v.len(),
            start <= i <= n,
            start == 0 || v@[start - 1] == '/',
            forall|k: int| start <= k < i ==> v@[k] != '/',
            forall|a: int, b: int| #[trigger]
                is_component(v@, a, b) && b < i ==> !bad_component(v@.subrange(a, b)),
        decreases n - i,
    {
        if i == n || v[i] == '/' {
            assert(is_component(v@, start as int, i as int));
            if component_is_bad(v, start, i) {
                return true;
            }
            assert forall|a: int, b: int| #[trigger] is_component(v@, a, b) && b <= i implies !bad_component(
                v@.subrange(a, b),
            ) by {
                if b == i {
                    if a < start {
                        assert(v@[start - 1] == '/');
                    } else if a > start {
                        assert(v@[a - 1] == '/');
                    }
                    assert(a == start);
                }
            }
            if i == n {
                return false;
            }
            start = i + 1;
        }
        i += 1;
    }
}

/// Finds the first rule, in checking order, that the name `s` breaks.
pub fn broken_rule(s: &str) -> (r: Option<RefRule>)
    ensures
        r == first_broken_rule(s@),
{
    let v = chars_of(s);
    let n = v.len();
    if n == 0 {
        return Some(RefRule::NonEmpty);
    }
    if contains_bad_component(&v) {
        return Some(RefRule::Components);
    }
    if contains_pair(&v, '.', '.') {
        return Some(RefRule::NoDoubleDot);
    }
    if contains_forbidden_char(&v) {
        return Some(RefRule::NoForbiddenChar);
    }
    if contains_char(&v, '?') || contains_char(&v, '*') || contains_char(&v, '[') {
        return Some(RefRule::NoWildcard);
    }
    if v[0] == '/' || v[n - 1] == '/' || contains_pair(&v, '/', '/') {
        return Some(RefRule::Slashes);
    }
    if v[n - 1] == '.' {
        return Some(RefRule::NoTrailingDot);
    }
    if contains_pair(&v, '@', '{') {
        return Some(RefRule::NoAtBrace);
    }
    if n == 1 && v[0] == '@' {
        assert(v@ =~= seq!['@']);
        return Some(RefRule::NotLoneAt);
    }
    if contains_char(&v, '\\') {
        return Some(RefRule::NoBackslash);
    }
    None
}

/// Checks a tag name against the naming rules.
///
/// A valid name passes. Any other name is refused as an invalid reference,
/// with the sentence of the first rule that it breaks.
pub fn check_valid_ref(s: &str) -> (r: Result<(), Error>)
    ensures
        r is Ok <==> valid_ref(s@),
        r matches Err(e) ==> e matches Error::InvalidRef { message } && first_broken_rule(
            s@,
        ) matches Some(rule) && message@ == rule.spec_message(),
{
    proof {
        lemma_first_broken_rule(s@);
    }
    match broken_rule(s) {
        None => Ok(()),
        Some(rule) => Err(Error::InvalidRef { message: rule.message() }),
    }
}

} // verus!
