//! The Duper value tree: identifiers, keys, values and their containers.
use vstd::prelude::*;
use crate::text::{
    char_len_utf8, chars_of, lemma_utf8_len_prefix_le, lemma_utf8_len_take, push_char, utf8_len,
};
use crate::unicode::{
    char_is_alphabetic, char_is_alphanumeric, char_is_uppercase, char_uppercase, is_alphabetic,
    is_alphanumeric, is_ascii_char, is_ascii_upper, is_uppercase, to_uppercase,
};

verus! {

/// A semantic identifier such as `Uuid` or `EmailAddress`.
///
/// A well-formed identifier starts with an upper-case letter, continues with
/// alphanumeric characters, and may separate words with single `-` or `_`.
#[derive(Debug, Clone, PartialEq, Eq, Hash)]
pub struct DuperIdentifier(pub(crate) String);

impl View for DuperIdentifier {
    type V = Seq<char>;

    closed spec fn view(&self) -> Seq<char> {
        self.0@
    }
}

/// Why a string could not become a [`DuperIdentifier`].
#[derive(Debug, Clone)]
pub enum DuperIdentifierTryFromError {
    /// The identifier has no characters.
    EmptyIdentifier,
    /// The given string holds an invalid character at the given byte offset.
    InvalidChar(String, usize),
}

/// `-` and `_` separate the words of an identifier.
pub open spec fn is_separator(c: char) -> bool {
    c == '-' || c == '_'
}

/// Whether the character at index `i` breaks the identifier rules: the first
/// character must be upper-case; a later one must be alphanumeric, or a
/// separator that does not directly follow a separator in position one or
/// later.
pub open spec fn identifier_violation(s: Seq<char>, i: int) -> bool {
    if i == 0 {
        !char_is_uppercase(s[0])
    } else if is_separator(s[i]) {
        i >= 2 && is_separator(s[i - 1])
    } else {
        !char_is_alphanumeric(s[i])
    }
}

/// Whether `s` is a well-formed identifier.
pub open spec fn is_valid_identifier(s: Seq<char>) -> bool {
    &&& s.len() > 0
    &&& forall|i: int| 0 <= i < s.len() ==> !#[trigger] identifier_violation(s, i)
}

/// The state of the lenient identifier conversion after some characters:
/// the rewritten identifier, if rewriting has started, and whether the last
/// kept character was a separator.
pub open spec fn lossy_step(s: Seq<char>, i: int, st: (Option<Seq<char>>, bool)) -> (
    Option<Seq<char>>,
    bool,
) {
    let c = s[i];
    if is_separator(c) {
        (
            match st.0 {
                Some(v) => if st.1 {
                    Some(v)
                } else {
                    Some(v.push(c))
                },
                None => None,
            },
            true,
        )
    } else if char_is_alphanumeric(c) {
        (
            match st.0 {
                Some(v) => Some(v.push(c)),
                None => None,
            },
            false,
        )
    } else {
        (
            match st.0 {
                Some(v) => Some(v),
                None => Some(s.take(i)),
            },
            st.1,
        )
    }
}

/// The lenient conversion's state after the first `n` characters (`n >= 1`).
pub open spec fn lossy_scan(s: Seq<char>, n: int) -> (Option<Seq<char>>, bool)
    decreases n,
{
    if n <= 1 {
        (
            if char_is_uppercase(s[0]) {
                None
            } else {
                Some(char_uppercase(s[0]))
            },
            false,
        )
    } else {
        lossy_step(s, n - 1, lossy_scan(s, n - 1))
    }
}

/// What the lenient conversion makes of `s`: `Ok` with the identifier, or
/// `Err(None)` for an empty result, or `Err(Some(p))` for an invalid
/// character at byte offset `p`.
pub open spec fn lossy_identifier(s: Seq<char>) -> Result<Seq<char>, Option<nat>> {
    if s.len() == 0 {
        Err(None)
    } else if !char_is_alphabetic(s[0]) {
        Err(Some(0))
    } else {
        match lossy_scan(s, s.len() as int).0 {
            Some(v) => if v.len() == 0 {
                Err(None)
            } else {
                Ok(v)
            },
            None => Ok(s),
        }
    }
}

/// While the characters after the first keep the identifier rules, the
/// lenient conversion leaves the identifier untouched.
proof fn lemma_scan_untouched(s: Seq<char>, n: int)
    requires
        is_valid_identifier(s),
        1 <= n <= s.len(),
    ensures
        lossy_scan(s, n).0 is None,
    decreases n,
{
    assert(!identifier_violation(s, 0));
    if n > 1 {
        lemma_scan_untouched(s, n - 1);
        assert(!identifier_violation(s, n - 1));
    }
}

/// The lenient conversion keeps a well-formed identifier as it is (its
/// first character, being upper-case, is alphabetic).
pub proof fn lemma_lossy_keeps_valid(s: Seq<char>)
    requires
        is_valid_identifier(s),
        char_is_alphabetic(s[0]),
    ensures
        lossy_identifier(s) == Ok::<Seq<char>, Option<nat>>(s),
{
    assert(!identifier_violation(s, 0));
    lemma_scan_untouched(s, s.len() as int);
}

/// A well-formed identifier whose first character is ASCII comes back from
/// the lenient conversion unchanged.
pub proof fn lemma_lossy_keeps_valid_ascii(s: Seq<char>)
    requires
        is_valid_identifier(s),
        is_ascii_char(s[0]),
    ensures
        lossy_identifier(s) == Ok::<Seq<char>, Option<nat>>(s),
{
    assert(!identifier_violation(s, 0));
    lemma_lossy_keeps_valid(s);
}

/// Every character is ASCII.
pub open spec fn is_ascii_text(s: Seq<char>) -> bool {
    forall|i: int| 0 <= i < s.len() ==> is_ascii_char(#[trigger] s[i])
}

/// No two separators stand next to each other.
pub open spec fn separators_apart(s: Seq<char>) -> bool {
    forall|i: int| 1 <= i < s.len() ==> !(is_separator(s[i - 1]) && #[trigger] is_separator(s[i]))
}

/// A character allowed after the first: a separator or an alphanumeric.
pub open spec fn is_word_char(c: char) -> bool {
    is_separator(c) || char_is_alphanumeric(c)
}

/// Whether the lenient conversion's start from the character `c` is
/// settled: `c` is already upper-case, or its upper-case mapping starts with
/// an upper-case alphabetic character, holds only separators and
/// alphanumerics after it, does not end in a separator and keeps separators
/// apart. Every ASCII character is settled; a character whose upper case
/// adds combining marks is not.
pub open spec fn settled_start(c: char) -> bool {
    char_is_uppercase(c) || {
        let u = char_uppercase(c);
        &&& u.len() >= 1
        &&& char_is_uppercase(u[0])
        &&& char_is_alphabetic(u[0])
        &&& forall|j: int| 1 <= j < u.len() ==> #[trigger] is_word_char(u[j])
        &&& !is_separator(u.last())
        &&& separators_apart(u)
    }
}

/// The shape of what the lenient conversion has after `n` characters of a
/// text with a settled start: untouched while the text keeps the rules,
/// else a rewritten text that starts with an upper-case letter, holds only
/// separators and alphanumerics, and keeps separators apart where the text
/// did.
proof fn lemma_scan_shape(s: Seq<char>, n: int)
    requires
        1 <= n <= s.len(),
        char_is_alphabetic(s[0]),
        settled_start(s[0]),
    ensures
        lossy_scan(s, n).0 is None ==> {
            &&& char_is_uppercase(s[0])
            &&& forall|j: int| 1 <= j < n ==> #[trigger] is_word_char(s[j])
            &&& lossy_scan(s, n).1 == (n >= 2 && is_separator(s[n - 1]))
        },
        lossy_scan(s, n).0 matches Some(v) ==> {
            &&& v.len() >= 1
            &&& char_is_uppercase(v[0])
            &&& char_is_alphabetic(v[0])
            &&& forall|j: int| 1 <= j < v.len() ==> #[trigger] is_word_char(v[j])
            &&& lossy_scan(s, n).1 == is_separator(v.last())
            &&& separators_apart(s.take(n)) ==> separators_apart(v)
        },
    decreases n,
{
    if n > 1 {
        lemma_scan_shape(s, n - 1);
        assert(s.take(n - 1) == s.take(n).take(n - 1));
        let c = s[n - 1];
        let prev = lossy_scan(s, n - 1);
        match prev.0 {
            None => {
                if !is_separator(c) && !char_is_alphanumeric(c) {
                    let v = s.take(n - 1);
                    assert(v[0] == s[0]);
                    assert(forall|j: int| 1 <= j < v.len() ==> v[j] == s[j]);
                    assert(separators_apart(s.take(n)) ==> separators_apart(v));
                }
            },
            Some(v) => {
                if is_separator(c) && !prev.1 {
                    let w = v.push(c);
                    assert(forall|j: int| 1 <= j < v.len() ==> w[j] == v[j]);
                    assert(separators_apart(s.take(n)) ==> separators_apart(w)) by {
                        if separators_apart(s.take(n)) {
                            assert(separators_apart(s.take(n - 1))) by {
                                assert forall|i: int| 1 <= i < s.take(n - 1).len() implies !(
                                is_separator(s.take(n - 1)[i - 1]) && #[trigger] is_separator(
                                    s.take(n - 1)[i],
                                )) by {
                                    assert(s.take(n - 1)[i] == s.take(n)[i]);
                                    assert(s.take(n - 1)[i - 1] == s.take(n)[i - 1]);
                                }
                            }
                            assert forall|i: int| 1 <= i < w.len() implies !(is_separator(w[i - 1])
                                && #[trigger] is_separator(w[i])) by {
                                if i < v.len() {
                                    assert(w[i] == v[i] && w[i - 1] == v[i - 1]);
                                }
                            }
                        }
                    }
                } else if char_is_alphanumeric(c) && !is_separator(c) {
                    let w = v.push(c);
                    assert(forall|j: int| 1 <= j < v.len() ==> w[j] == v[j]);
                    assert(separators_apart(s.take(n)) ==> separators_apart(w)) by {
                        if separators_apart(s.take(n)) {
                            assert(separators_apart(s.take(n - 1))) by {
                                assert forall|i: int| 1 <= i < s.take(n - 1).len() implies !(
                                is_separator(s.take(n - 1)[i - 1]) && #[trigger] is_separator(
                                    s.take(n - 1)[i],
                                )) by {
                                    assert(s.take(n - 1)[i] == s.take(n)[i]);
                                    assert(s.take(n - 1)[i - 1] == s.take(n)[i - 1]);
                                }
                            }
                            assert forall|i: int| 1 <= i < w.len() implies !(is_separator(w[i - 1])
                                && #[trigger] is_separator(w[i])) by {
                                if i < v.len() {
                                    assert(w[i] == v[i] && w[i - 1] == v[i - 1]);
                                }
                            }
                        }
                    }
                } else {
                    assert(separators_apart(s.take(n)) ==> separators_apart(s.take(n - 1))) by {
                        if separators_apart(s.take(n)) {
                            assert forall|i: int| 1 <= i < s.take(n - 1).len() implies !(
                            is_separator(s.take(n - 1)[i - 1]) && #[trigger] is_separator(
                                s.take(n - 1)[i],
                            )) by {
                                assert(s.take(n - 1)[i] == s.take(n)[i]);
                                assert(s.take(n - 1)[i - 1] == s.take(n)[i - 1]);
                            }
                        }
                    }
                }
            },
        }
    } else {
        assert(s.take(1).len() == 1);
    }
}

/// A text that starts with a capital and holds only separators and
/// alphanumerics after it is left untouched by the lenient conversion.
proof fn lemma_scan_none(s: Seq<char>, n: int)
    requires
        1 <= n <= s.len(),
        char_is_uppercase(s[0]),
        forall|j: int| 1 <= j < s.len() ==> #[trigger] is_word_char(s[j]),
    ensures
        lossy_scan(s, n).0 is None,
    decreases n,
{
    if n > 1 {
        lemma_scan_none(s, n - 1);
        assert(is_word_char(s[n - 1]));
    }
}

/// An ASCII letter is a settled start: it is upper-case or maps to a
/// single capital.
proof fn lemma_ascii_settled(c: char)
    requires
        is_ascii_char(c),
        char_is_alphabetic(c),
    ensures
        settled_start(c),
{
    if !char_is_uppercase(c) {
        let u = char_uppercase(c);
        let x = (c as int) - 32;
        assert(65 <= x <= 90);
        assert(u == seq![x as char]);
        assert((x as char) as int == x);
        assert(u.len() == 1);
        assert(char_is_uppercase(u[0]));
        assert(separators_apart(u));
    }
}

/// The lenient conversion settles: converting its result again gives the
/// same identifier, whenever its start is settled (always so when the first
/// character is ASCII or already upper-case).
pub proof fn lemma_lossy_idempotent_settled(s: Seq<char>)
    requires
        lossy_identifier(s) is Ok,
        settled_start(s[0]),
    ensures
        lossy_identifier(lossy_identifier(s)->Ok_0) == lossy_identifier(s),
{
    let v = lossy_identifier(s)->Ok_0;
    lemma_scan_shape(s, s.len() as int);
    match lossy_scan(s, s.len() as int).0 {
        Some(w) => {
            assert(v == w);
            lemma_scan_none(v, v.len() as int);
        },
        None => {
            assert(v == s);
        },
    }
}

/// The lenient conversion of an ASCII text is settled: converting its
/// result again gives the same identifier.
pub proof fn lemma_lossy_idempotent(s: Seq<char>)
    requires
        is_ascii_text(s),
        lossy_identifier(s) is Ok,
    ensures
        lossy_identifier(lossy_identifier(s)->Ok_0) == lossy_identifier(s),
{
    lemma_ascii_settled(s[0]);
    lemma_lossy_idempotent_settled(s);
}

/// The lenient conversion of a text with a settled start that keeps
/// separators apart is a well-formed identifier.
pub proof fn lemma_lossy_gives_valid_settled(s: Seq<char>)
    requires
        separators_apart(s),
        lossy_identifier(s) is Ok,
        settled_start(s[0]),
    ensures
        is_valid_identifier(lossy_identifier(s)->Ok_0),
{
    let v = lossy_identifier(s)->Ok_0;
    lemma_scan_shape(s, s.len() as int);
    assert(s.take(s.len() as int) == s);
    match lossy_scan(s, s.len() as int).0 {
        Some(w) => {
            assert(v == w);
            assert forall|i: int| 0 <= i < v.len() implies !#[trigger] identifier_violation(v, i) by {
                if i > 0 {
                    assert(is_word_char(v[i]));
                }
            }
        },
        None => {
            assert(v == s);
            assert forall|i: int| 0 <= i < v.len() implies !#[trigger] identifier_violation(v, i) by {
                if i > 0 {
                    assert(is_word_char(v[i]));
                }
            }
        },
    }
}

/// The lenient conversion of an ASCII text that keeps separators apart is
/// a well-formed identifier.
pub proof fn lemma_lossy_gives_valid(s: Seq<char>)
    requires
        is_ascii_text(s),
        separators_apart(s),
        lossy_identifier(s) is Ok,
    ensures
        is_valid_identifier(lossy_identifier(s)->Ok_0),
{
    lemma_ascii_settled(s[0]);
    lemma_lossy_gives_valid_settled(s);
}

/// Once the lenient conversion has started rewriting, what it has written
/// is never empty, as the upper-case mapping of a character never is.
proof fn lemma_scan_nonempty(s: Seq<char>, n: int)
    requires
        1 <= n <= s.len(),
        !char_is_uppercase(s[0]) ==> char_uppercase(s[0]).len() >= 1,
    ensures
        lossy_scan(s, n).0 matches Some(v) ==> v.len() >= 1,
    decreases n,
{
    if n > 1 {
        lemma_scan_nonempty(s, n - 1);
    }
}

fn separator(c: char) -> (r: bool)
    ensures
        r == is_separator(c),
{
    c == '-' || c == '_'
}

fn string_of_prefix(cs: &Vec<char>, n: usize) -> (s: String)
    requires
        n <= cs.len(),
    ensures
        s@ == cs@.take(n as int),
{
    let mut s = String::new();
    let mut i: usize = 0;
    while i < n
        invariant
            n <= cs.len(),
            i <= n,
            s@ == cs@.take(i as int),
        decreases n - i,
    {
        push_char(&mut s, cs[i]);
        i += 1;
        assert(cs@.take(i as int) == cs@.take(i - 1).push(cs@[i - 1]));
    }
    s
}

/// The characters of an optional string.
pub open spec fn opt_view(o: Option<String>) -> Option<Seq<char>> {
    match o {
        Some(s) => Some(s@),
        None => None,
    }
}

impl DuperIdentifier {
    /// The identifier's text.
    pub fn into_inner(self) -> (s: String)
        ensures
            s@ == self@,
    {
        self.0
    }

    /// The identifier's text, borrowed.
    pub fn as_str(&self) -> (s: &str)
        ensures
            s@ == self@,
    {
        self.0.as_str()
    }

    /// An identifier whose text the parser has already matched against the
    /// grammar's identifier rule.
    pub(crate) fn from_parsed(text: String) -> (id: DuperIdentifier)
        ensures
            id@ == text@,
    {
        DuperIdentifier(text)
    }

    /// Accepts `value` as an identifier if it is well-formed; otherwise
    /// reports that it is empty or where its first invalid character is.
    pub fn try_from(value: String) -> (r: Result<DuperIdentifier, DuperIdentifierTryFromError>)
        ensures
            r matches Ok(id) ==> id@ == value@,
            r is Ok <==> is_valid_identifier(value@),
            r matches Err(DuperIdentifierTryFromError::EmptyIdentifier) <==> value@.len() == 0,
            r matches Err(DuperIdentifierTryFromError::InvalidChar(v, p)) ==> {
                &&& v@ == value@
                &&& exists|i: int|
                    0 <= i < value@.len() && identifier_violation(value@, i) && (forall|j: int|
                        0 <= j < i ==> !identifier_violation(value@, j)) && p == utf8_len(
                        value@.take(i),
                    )
            },
    {
        let cs = chars_of(value.as_str());
        if cs.len() == 0 {
            return Err(DuperIdentifierTryFromError::EmptyIdentifier);
        }
        if !is_uppercase(cs[0]) {
            proof {
                assert(identifier_violation(value@, 0));
                assert(value@.take(0) =~= Seq::<char>::empty());
            }
            return Err(DuperIdentifierTryFromError::InvalidChar(value, 0));
        }
        let mut last_char_was_separator = false;
        let mut pos: usize = char_len_utf8(cs[0]);
        proof {
            lemma_utf8_len_take(value@, 0);
            assert(value@.take(0) =~= Seq::<char>::empty());
        }
        let total = value.as_str().as_bytes().len();
        let mut i: usize = 1;
        while i < cs.len()
            invariant
                cs@ == value@,
                total as nat == utf8_len(value@),
                1 <= i <= cs.len(),
                pos as nat == utf8_len(value@.take(i as int)),
                last_char_was_separator == (i >= 2 && is_separator(value@[i - 1])),
                forall|j: int| 0 <= j < i ==> !identifier_violation(value@, j),
            decreases cs.len() - i,
        {
            let c = cs[i];
            if separator(c) {
                if last_char_was_separator {
                    assert(identifier_violation(value@, i as int));
                    return Err(DuperIdentifierTryFromError::InvalidChar(value, pos));
                }
                last_char_was_separator = true;
            } else if is_alphanumeric(c) {
                last_char_was_separator = false;
            } else {
                assert(identifier_violation(value@, i as int));
                return Err(DuperIdentifierTryFromError::InvalidChar(value, pos));
            }
            proof {
                lemma_utf8_len_take(value@, i as int);
            }
            let w = char_len_utf8(c);
            proof {
                lemma_utf8_len_prefix_le(value@, i as int + 1);
            }
            pos = pos + w;
            i += 1;
        }
        Ok(DuperIdentifier(value))
    }

    /// Turns `value` into an identifier, repairing what it can: a lower-case
    /// first letter is upper-cased and invalid characters are dropped; once
    /// a repair has started, runs of separators are collapsed to their first.
    /// A text that needs no repair is kept as it is. Fails when the first
    /// character is not alphabetic, or when nothing is left.
    pub fn try_from_lossy(value: String) -> (r: Result<DuperIdentifier, DuperIdentifierTryFromError>)
        ensures
            match lossy_identifier(value@) {
                Ok(v) => r matches Ok(id) && id@ == v,
                Err(None) => r matches Err(DuperIdentifierTryFromError::EmptyIdentifier),
                Err(Some(p)) => r matches Err(DuperIdentifierTryFromError::InvalidChar(v, q)) && v@
                    == value@ && q == p,
            },
            r is Err <==> (value@.len() == 0 || !char_is_alphabetic(value@[0])),
            r matches Err(DuperIdentifierTryFromError::EmptyIdentifier) <==> value@.len() == 0,
    {
        let cs = chars_of(value.as_str());
        if cs.len() == 0 {
            return Err(DuperIdentifierTryFromError::EmptyIdentifier);
        }
        let c0 = cs[0];
        let mut new_value: Option<String>;
        if is_alphabetic(c0) && !is_uppercase(c0) {
            new_value = Some(to_uppercase(c0));
        } else if is_alphabetic(c0) {
            new_value = None;
        } else {
            return Err(DuperIdentifierTryFromError::InvalidChar(value, 0));
        }
        let mut last_char_was_separator = false;
        let mut i: usize = 1;
        while i < cs.len()
            invariant
                cs@ == value@,
                1 <= i <= cs.len(),
                char_is_alphabetic(value@[0]),
                !char_is_uppercase(value@[0]) ==> char_uppercase(value@[0]).len() >= 1,
                (opt_view(new_value), last_char_was_separator) == lossy_scan(value@, i as int),
            decreases cs.len() - i,
        {
            let c = cs[i];
            if separator(c) {
                new_value = match new_value {
                    Some(mut nv) => {
                        if !last_char_was_separator {
                            push_char(&mut nv, c);
                        }
                        Some(nv)
                    },
                    None => None,
                };
                last_char_was_separator = true;
            } else if is_alphanumeric(c) {
                new_value = match new_value {
                    Some(mut nv) => {
                        push_char(&mut nv, c);
                        Some(nv)
                    },
                    None => None,
                };
                last_char_was_separator = false;
            } else {
                new_value = match new_value {
                    Some(nv) => Some(nv),
                    None => Some(string_of_prefix(&cs, i)),
                };
            }
            i += 1;
        }
        proof {
            lemma_scan_nonempty(value@, cs.len() as int);
        }
        match new_value {
            Some(nv) => {
                if nv.as_str().is_empty() {
                    Err(DuperIdentifierTryFromError::EmptyIdentifier)
                } else {
                    Ok(DuperIdentifier(nv))
                }
            },
            None => Ok(DuperIdentifier(value)),
        }
    }
}

} // verus!

verus! {

/// A key of a Duper object.
#[derive(Debug, Clone, PartialEq, Eq, Hash)]
pub struct DuperKey(pub(crate) String);

impl View for DuperKey {
    type V = Seq<char>;

    closed spec fn view(&self) -> Seq<char> {
        self.0@
    }
}

impl DuperKey {
    /// A key with the given text.
    pub fn from(value: String) -> (k: DuperKey)
        ensures
            k@ == value@,
    {
        DuperKey(value)
    }

    /// The key's text.
    pub fn into_inner(self) -> (s: String)
        ensures
            s@ == self@,
    {
        self.0
    }

    /// The key's text, borrowed.
    pub fn as_str(&self) -> (s: &str)
        ensures
            s@ == self@,
    {
        self.0.as_str()
    }

    /// Whether two keys hold the same text.
    pub fn key_eq(&self, other: &DuperKey) -> (r: bool)
        ensures
            r == (self@ == other@),
    {
        self.0 == other.0
    }
}

/// A Duper string value.
#[derive(Debug, Clone, PartialEq, Eq, Hash)]
pub struct DuperString(pub(crate) String);

impl View for DuperString {
    type V = Seq<char>;

    closed spec fn view(&self) -> Seq<char> {
        self.0@
    }
}

impl DuperString {
    /// A string value with the given text.
    pub fn from(value: String) -> (s: DuperString)
        ensures
            s@ == value@,
    {
        DuperString(value)
    }

    /// The string's text.
    pub fn into_inner(self) -> (s: String)
        ensures
            s@ == self@,
    {
        self.0
    }

    /// The string's text, borrowed.
    pub fn as_str(&self) -> (s: &str)
        ensures
            s@ == self@,
    {
        self.0.as_str()
    }
}

/// A Duper bytes value.
#[derive(Debug, Clone, PartialEq, Eq, Hash)]
pub struct DuperBytes(pub(crate) Vec<u8>);

impl View for DuperBytes {
    type V = Seq<u8>;

    closed spec fn view(&self) -> Seq<u8> {
        self.0@
    }
}

impl DuperBytes {
    /// A bytes value with the given bytes.
    pub fn from(value: Vec<u8>) -> (b: DuperBytes)
        ensures
            b@ == value@,
    {
        DuperBytes(value)
    }

    /// The bytes.
    pub fn into_inner(self) -> (v: Vec<u8>)
        ensures
            v@ == self@,
    {
        self.0
    }

    /// The bytes, borrowed.
    pub fn as_slice(&self) -> (v: &[u8])
        ensures
            v@ == self@,
    {
        self.0.as_slice()
    }
}

/// A double-precision float, carried by its IEEE 754 bit pattern together
/// with its shortest decimal rendering (what `f64`'s `Display` writes).
#[derive(Debug, Clone)]
pub struct DuperFloat {
    pub(crate) bits: u64,
    pub(crate) text: String,
}

impl DuperFloat {
    pub closed spec fn spec_bits(&self) -> u64 {
        self.bits
    }

    pub closed spec fn spec_text(&self) -> Seq<char> {
        self.text@
    }

    /// A float with the given bit pattern and decimal rendering.
    pub fn new(bits: u64, text: String) -> (f: DuperFloat)
        ensures
            f.spec_bits() == bits,
            f.spec_text() == text@,
    {
        DuperFloat { bits, text }
    }

    /// The IEEE 754 bit pattern.
    pub fn to_bits(&self) -> (b: u64)
        ensures
            b == self.spec_bits(),
    {
        self.bits
    }

    /// The decimal rendering.
    pub fn as_str(&self) -> (s: &str)
        ensures
            s@ == self.spec_text(),
    {
        self.text.as_str()
    }
}

/// A Duper value: an optional identifier and the value proper.
#[derive(Debug)]
pub struct DuperValue {
    pub identifier: Option<DuperIdentifier>,
    pub inner: DuperInner,
}

/// The kinds of Duper values.
#[derive(Debug)]
pub enum DuperInner {
    Object(DuperObject),
    Array(DuperArray),
    Tuple(DuperTuple),
    String(DuperString),
    Bytes(DuperBytes),
    Integer(i64),
    Float(DuperFloat),
    Boolean(bool),
    Null,
}

/// The entries of a Duper object, in order.
#[derive(Debug)]
pub struct DuperObject(pub(crate) Vec<(DuperKey, DuperValue)>);

/// The elements of a Duper array.
#[derive(Debug)]
pub struct DuperArray(pub(crate) Vec<DuperValue>);

/// The elements of a Duper tuple.
#[derive(Debug)]
pub struct DuperTuple(pub(crate) Vec<DuperValue>);

impl View for DuperObject {
    type V = Seq<(DuperKey, DuperValue)>;

    closed spec fn view(&self) -> Seq<(DuperKey, DuperValue)> {
        self.0@
    }
}

impl View for DuperArray {
    type V = Seq<DuperValue>;

    closed spec fn view(&self) -> Seq<DuperValue> {
        self.0@
    }
}

impl View for DuperTuple {
    type V = Seq<DuperValue>;

    closed spec fn view(&self) -> Seq<DuperValue> {
        self.0@
    }
}

/// Why entries could not become a [`DuperObject`].
#[derive(Debug, Clone)]
pub enum DuperObjectTryFromError {
    /// The given key occurs more than once.
    DuplicateKey(String),
}

/// No key occurs twice among the first `n` entries.
pub open spec fn keys_distinct_below(s: Seq<(DuperKey, DuperValue)>, n: int) -> bool {
    forall|i: int, j: int| #![trigger s[i], s[j]] 0 <= i < j < n ==> s[i].0@ != s[j].0@
}

/// No key occurs twice among the entries.
pub open spec fn keys_distinct(s: Seq<(DuperKey, DuperValue)>) -> bool {
    keys_distinct_below(s, s.len() as int)
}

/// The entry at index `j` repeats the key of an earlier entry.
pub open spec fn repeats_earlier_key(s: Seq<(DuperKey, DuperValue)>, j: int) -> bool {
    exists|i: int| 0 <= i < j && s[i].0@ == s[j].0@
}

/// The children of a container decrease from the value that holds it.
pub proof fn lemma_children_decrease(v: DuperValue)
    ensures
        v.inner is Object ==> decreases_to!(v => v.inner->Object_0@),
        v.inner is Array ==> decreases_to!(v => v.inner->Array_0@),
        v.inner is Tuple ==> decreases_to!(v => v.inner->Tuple_0@),
{
    if v.inner is Object {
        assert(decreases_to!(v => v.inner));
        assert(decreases_to!(v.inner => v.inner->Object_0));
        assert(decreases_to!(v.inner->Object_0 => v.inner->Object_0.0));
        assert(decreases_to!(v.inner->Object_0.0 => v.inner->Object_0.0@));
    }
    if v.inner is Array {
        assert(decreases_to!(v => v.inner));
        assert(decreases_to!(v.inner => v.inner->Array_0));
        assert(decreases_to!(v.inner->Array_0 => v.inner->Array_0.0));
        assert(decreases_to!(v.inner->Array_0.0 => v.inner->Array_0.0@));
    }
    if v.inner is Tuple {
        assert(decreases_to!(v => v.inner));
        assert(decreases_to!(v.inner => v.inner->Tuple_0));
        assert(decreases_to!(v.inner->Tuple_0 => v.inner->Tuple_0.0));
        assert(decreases_to!(v.inner->Tuple_0.0 => v.inner->Tuple_0.0@));
    }
}

impl DuperObject {
    /// An object of the given entries, which the caller has built with
    /// distinct keys.
    pub(crate) fn from_entries(entries: Vec<(DuperKey, DuperValue)>) -> (o: DuperObject)
        ensures
            o@ == entries@,
    {
        DuperObject(entries)
    }

    /// The object's entries.
    pub fn into_inner(self) -> (v: Vec<(DuperKey, DuperValue)>)
        ensures
            v@ == self@,
    {
        self.0
    }

    /// The object's entries, borrowed.
    pub fn entries(&self) -> (v: &Vec<(DuperKey, DuperValue)>)
        ensures
            v@ == self@,
    {
        &self.0
    }

    /// Whether the object has no entries.
    pub fn is_empty(&self) -> (b: bool)
        ensures
            b == (self@.len() == 0),
    {
        self.0.len() == 0
    }

    /// The number of entries.
    pub fn len(&self) -> (n: usize)
        ensures
            n == self@.len(),
    {
        self.0.len()
    }

    /// Makes an object of the entries, unless a key occurs twice; then
    /// reports the first key that repeats an earlier one.
    pub fn try_from(value: Vec<(DuperKey, DuperValue)>) -> (r: Result<
        DuperObject,
        DuperObjectTryFromError,
    >)
        ensures
            r matches Ok(o) ==> o@ == value@,
            r is Ok <==> keys_distinct(value@),
            r matches Err(DuperObjectTryFromError::DuplicateKey(k)) ==> exists|j: int|
                0 <= j < value@.len() && repeats_earlier_key(value@, j) && keys_distinct_below(
                    value@,
                    j,
                ) && k@ == value@[j].0@,
    {
        let mut j: usize = 0;
        while j < value.len()
            invariant
                j <= value.len(),
                keys_distinct_below(value@, j as int),
            decreases value.len() - j,
        {
            let mut i: usize = 0;
            while i < j
                invariant
                    j < value.len(),
                    i <= j,
                    keys_distinct_below(value@, j as int),
                    forall|k: int| 0 <= k < i ==> value@[k].0@ != value@[j as int].0@,
                decreases j - i,
            {
                if value[i].0.key_eq(&value[j].0) {
                    proof {
                        assert(repeats_earlier_key(value@, j as int));
                        assert(!keys_distinct(value@));
                    }
                    let k = value[j].0.0.clone();
                    return Err(DuperObjectTryFromError::DuplicateKey(k));
                }
                i += 1;
            }
            j += 1;
        }
        Ok(DuperObject(value))
    }
}

impl DuperArray {
    /// An array of the given values.
    pub fn from(value: Vec<DuperValue>) -> (a: DuperArray)
        ensures
            a@ == value@,
    {
        DuperArray(value)
    }

    /// The array's elements.
    pub fn into_inner(self) -> (v: Vec<DuperValue>)
        ensures
            v@ == self@,
    {
        self.0
    }

    /// The array's elements, borrowed.
    pub fn values(&self) -> (v: &Vec<DuperValue>)
        ensures
            v@ == self@,
    {
        &self.0
    }

    /// Whether the array has no elements.
    pub fn is_empty(&self) -> (b: bool)
        ensures
            b == (self@.len() == 0),
    {
        self.0.len() == 0
    }

    /// The number of elements.
    pub fn len(&self) -> (n: usize)
        ensures
            n == self@.len(),
    {
        self.0.len()
    }

    /// The element at `index`, if there is one.
    pub fn get(&self, index: usize) -> (r: Option<&DuperValue>)
        ensures
            index < self@.len() ==> r == Some(&self@[index as int]),
            index >= self@.len() ==> r is None,
    {
        if index < self.0.len() {
            Some(&self.0[index])
        } else {
            None
        }
    }
}

impl DuperTuple {
    /// A tuple of the given values.
    pub fn from(value: Vec<DuperValue>) -> (t: DuperTuple)
        ensures
            t@ == value@,
    {
        DuperTuple(value)
    }

    /// The tuple's elements.
    pub fn into_inner(self) -> (v: Vec<DuperValue>)
        ensures
            v@ == self@,
    {
        self.0
    }

    /// The tuple's elements, borrowed.
    pub fn values(&self) -> (v: &Vec<DuperValue>)
        ensures
            v@ == self@,
    {
        &self.0
    }

    /// Whether the tuple has no elements.
    pub fn is_empty(&self) -> (b: bool)
        ensures
            b == (self@.len() == 0),
    {
        self.0.len() == 0
    }

    /// The number of elements.
    pub fn len(&self) -> (n: usize)
        ensures
            n == self@.len(),
    {
        self.0.len()
    }

    /// The element at `index`, if there is one.
    pub fn get(&self, index: usize) -> (r: Option<&DuperValue>)
        ensures
            index < self@.len() ==> r == Some(&self@[index as int]),
            index >= self@.len() ==> r is None,
    {
        if index < self.0.len() {
            Some(&self.0[index])
        } else {
            None
        }
    }
}

} // verus!
