// Text and identifiers of the registry
//  McText - used for all text in the registry
//  McIdentifier - used for all named objects in the registry
// Both are immutable and Copy, the text lives for the rest of the program's run

use vstd::prelude::*;

use crate::strings::{
    char_is_ascii_alnum, char_utf8_len, is_ascii_alnum, leak_string, lex_ord, push_char, str_compare,
    str_eq, str_to_chars,
    utf8_len,
};

verus! {

//-------------------------------------------------------------------------------------------------
// Identifier characters

/// Characters allowed in an identifier: ASCII letters and digits, '_' and '.'
pub open spec fn is_ident_char(c: char) -> bool {
    is_ascii_alnum(c) || c == '_' || c == '.'
}

/// All characters are allowed in an identifier
pub open spec fn is_identifier(s: Seq<char>) -> bool {
    forall|i: int| 0 <= i < s.len() ==> is_ident_char(#[trigger] s[i])
}

/// n underscores
pub open spec fn underscores(n: nat) -> Seq<char> {
    Seq::new(n, |i: int| '_')
}

/// What one character becomes in an identifier: itself, or one '_' for each byte of its UTF-8 encoding
pub open spec fn ident_chars_of(c: char) -> Seq<char> {
    if is_ident_char(c) {
        seq![c]
    } else {
        underscores(utf8_len(c))
    }
}

/// The identifier made from a text: every byte of a character that is not allowed becomes '_'
pub open spec fn identifier_of(s: Seq<char>) -> Seq<char>
    decreases s.len(),
{
    if s.len() == 0 {
        Seq::empty()
    } else {
        identifier_of(s.drop_last()) + ident_chars_of(s.last())
    }
}

/// An identifier made from any text holds only allowed characters
pub proof fn lemma_identifier_of_is_identifier(s: Seq<char>)
    ensures
        is_identifier(identifier_of(s)),
    decreases s.len(),
{
    if s.len() > 0 {
        lemma_identifier_of_is_identifier(s.drop_last());
        let a = identifier_of(s.drop_last());
        let b = ident_chars_of(s.last());
        assert forall|i: int| 0 <= i < (a + b).len() implies is_ident_char(#[trigger] (a + b)[i]) by {
            if i < a.len() {
                assert((a + b)[i] == a[i]);
            } else {
                assert((a + b)[i] == b[i - a.len()]);
            }
        }
    }
}

/// A text that is already an identifier stays as it is
pub proof fn lemma_identifier_of_identity(s: Seq<char>)
    requires
        is_identifier(s),
    ensures
        identifier_of(s) == s,
    decreases s.len(),
{
    if s.len() > 0 {
        assert(is_ident_char(s[s.len() - 1]));
        assert(is_identifier(s.drop_last())) by {
            assert forall|i: int| 0 <= i < s.drop_last().len() implies is_ident_char(
                #[trigger] s.drop_last()[i],
            ) by {
                assert(s.drop_last()[i] == s[i]);
            }
        }
        lemma_identifier_of_identity(s.drop_last());
        assert(s.drop_last().push(s.last()) =~= s);
        assert(seq![s.last()] + Seq::empty() =~= seq![s.last()]);
        assert(s.drop_last() + seq![s.last()] =~= s);
    }
}

/// Making an identifier twice gives the same as making it once
pub proof fn lemma_identifier_of_idempotent(s: Seq<char>)
    ensures
        identifier_of(identifier_of(s)) == identifier_of(s),
{
    lemma_identifier_of_is_identifier(s);
    lemma_identifier_of_identity(identifier_of(s));
}

/// Check that all characters of a text are allowed in an identifier
pub fn check_identifier(s: &str) -> (b: bool)
    ensures
        b == is_identifier(s@),
{
    let v = str_to_chars(s);
    let mut i: usize = 0;
    while i < v.len()
        invariant
            v@ == s@,
            i <= v@.len(),
            forall|j: int| 0 <= j < i ==> is_ident_char(#[trigger] v@[j]),
        decreases v@.len() - i,
    {
        let c = v[i];
        if !(char_is_ascii_alnum(c) || c == '_' || c == '.') {
            assert(!is_ident_char(v@[i as int]));
            return false;
        }
        i += 1;
    }
    true
}

/// Replace every byte of a character not allowed in an identifier by '_'
pub fn to_identifier(s: &mut String)
    ensures
        final(s)@ == identifier_of(old(s)@),
{
    let v = str_to_chars(s.as_str());
    let mut r = String::new();
    let mut i: usize = 0;
    while i < v.len()
        invariant
            i <= v@.len(),
            r@ == identifier_of(v@.take(i as int)),
        decreases v@.len() - i,
    {
        let c = v[i];
        let ghost before = r@;
        if char_is_ascii_alnum(c) || c == '_' || c == '.' {
            push_char(&mut r, c);
            assert(r@ =~= before + ident_chars_of(c));
        } else {
            let n = char_utf8_len(c);
            let mut k: usize = 0;
            while k < n
                invariant
                    k <= n,
                    n == utf8_len(c),
                    r@ == before + underscores(k as nat),
                decreases n - k,
            {
                push_char(&mut r, '_');
                k += 1;
                assert(r@ =~= before + underscores(k as nat));
            }
        }
        assert(v@.take(i + 1).drop_last() =~= v@.take(i as int));
        assert(v@.take(i + 1).last() == c);
        i += 1;
    }
    assert(v@.take(v@.len() as int) =~= v@);
    *s = r;
}

//-------------------------------------------------------------------------------------------------
// McText

/// Text of the registry (comments, units, ...)
#[derive(Debug, Copy, Clone)]
pub struct McText(&'static str);

impl View for McText {
    type V = Seq<char>;

    closed spec fn view(&self) -> Seq<char> {
        self.0@
    }
}

impl McText {
    /// The empty text
    pub closed spec fn empty_text() -> McText {
        McText("")
    }

    pub fn empty() -> (t: McText)
        ensures
            t@ == Seq::<char>::empty(),
            t == McText::empty_text(),
    {
        let e = "";
        proof {
            reveal_strlit("");
        }
        McText(e)
    }

    pub fn new(s: &'static str) -> (t: McText)
        ensures
            t@ == s@,
    {
        McText(s)
    }

    /// Text from an owned string, which is kept for the rest of the program's run
    pub fn from_string(s: String) -> (t: McText)
        ensures
            t@ == s@,
    {
        McText(leak_string(s))
    }

    pub fn as_str(&self) -> (s: &'static str)
        ensures
            s@ == self@,
    {
        self.0
    }

    pub fn is_empty(&self) -> (b: bool)
        ensures
            b == (self@.len() == 0),
    {
        self.0.is_empty()
    }

    /// Compare the text with a string slice
    pub fn eq_str(&self, other: &str) -> (b: bool)
        ensures
            b == (self@ == other@),
    {
        str_eq(self.0, other)
    }

    /// Lexicographic order of texts: -1, 0 or 1
    pub fn compare(&self, other: &McText) -> (r: i8)
        ensures
            r == lex_ord(self@, other@),
    {
        str_compare(self.0, other.0)
    }
}

//-------------------------------------------------------------------------------------------------
// McIdentifier

/// Name of an object in the registry, holds only characters allowed in an identifier
/// when it is made from a string
#[derive(Debug, Copy, Clone)]
pub struct McIdentifier(&'static str);

impl View for McIdentifier {
    type V = Seq<char>;

    closed spec fn view(&self) -> Seq<char> {
        self.0@
    }
}

impl McIdentifier {
    /// An identifier holds only allowed characters
    #[verifier::type_invariant]
    spec fn holds_identifier(self) -> bool {
        is_identifier(self.0@)
    }

    /// The text of an identifier holds only allowed characters
    pub fn is_valid(&self) -> (b: bool)
        ensures
            b,
            is_identifier(self@),
    {
        proof {
            use_type_invariant(self);
        }
        true
    }

    pub fn empty() -> (t: McIdentifier)
        ensures
            t@ == Seq::<char>::empty(),
    {
        let e = "";
        proof {
            reveal_strlit("");
        }
        McIdentifier(e)
    }

    /// Identifier from a static text, which must hold only allowed characters
    pub fn new(s: &'static str) -> (t: McIdentifier)
        requires
            is_identifier(s@),
        ensures
            t@ == s@,
    {
        McIdentifier(s)
    }

    /// Identifier from an owned string, every byte of a character not allowed becomes '_'
    pub fn from_string(s: String) -> (t: McIdentifier)
        ensures
            t@ == identifier_of(s@),
    {
        let ghost orig = s@;
        let mut s = s;
        to_identifier(&mut s);
        proof {
            lemma_identifier_of_is_identifier(orig);
        }
        McIdentifier(leak_string(s))
    }

    pub fn as_str(&self) -> (s: &'static str)
        ensures
            s@ == self@,
    {
        self.0
    }

    pub fn is_empty(&self) -> (b: bool)
        ensures
            b == (self@.len() == 0),
    {
        self.0.is_empty()
    }

    /// Compare the identifier with a string slice
    pub fn eq_str(&self, other: &str) -> (b: bool)
        ensures
            b == (self@ == other@),
    {
        str_eq(self.0, other)
    }

    /// Compare two identifiers by their text
    pub fn eq(&self, other: &McIdentifier) -> (b: bool)
        ensures
            b == (self@ == other@),
    {
        str_eq(self.0, other.0)
    }
}

} // verus!
