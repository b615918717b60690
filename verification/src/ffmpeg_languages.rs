//! Language codes of media streams, and the tables that give a code its
//! name and the tag the platform knows it by.

use vstd::prelude::*;
use vstd::utf8::*;

verus! {

/// The bytes that a four-byte fixed string keeps of `bytes`: one byte of the
/// four counts the length, so the first three bytes stay.
pub open spec fn str4_kept(bytes: Seq<u8>) -> Seq<u8> {
    if bytes.len() <= 3 {
        bytes
    } else {
        bytes.subrange(0, 3)
    }
}

/// The text that `bytes` are in UTF-8; `None` where they are no text.
pub open spec fn bytes_text(bytes: Seq<u8>) -> Option<Seq<char>> {
    if valid_utf8(bytes) {
        Some(decode_utf8(bytes))
    } else {
        None
    }
}

/// Stores `s` in a `fixedstr::str4` (`From<&str>`, which is `tstr::make`) and
/// reads it back twice, with `tstr::as_bytes` and with `tstr::as_str_safe`.
/// `make` copies the first `min(3, len)` bytes of `s`; `as_bytes` hands out
/// those bytes; `as_str_safe` hands them out as text when they are valid
/// UTF-8 and reports an error otherwise.  The contract states exactly that.
#[verifier::external_body]
fn str4_contents(s: &str) -> (r: (Vec<u8>, Option<String>))
    ensures
        r.0@ == str4_kept(encode_utf8(s@)),
        r.1.deep_view() == bytes_text(str4_kept(encode_utf8(s@))),
{
    let kept = fixedstr::str4::from(s);
    let text = match kept.as_str_safe() {
        Ok(text) => Some(String::from(text)),
        Err(_) => None,
    };
    (kept.as_bytes().to_vec(), text)
}

/// A text of at most three bytes is stored whole, and read back as it was.
pub proof fn lemma_short_text_is_kept(s: Seq<char>)
    requires
        encode_utf8(s).len() <= 3,
    ensures
        str4_kept(encode_utf8(s)) == encode_utf8(s),
        bytes_text(encode_utf8(s)) == Some(s),
{
    encode_utf8_valid_utf8(s);
    encode_utf8_decode_utf8(s);
}

/// Up to three ASCII characters are stored whole, and read back as they
/// were.
pub proof fn lemma_short_ascii_is_kept(s: Seq<char>)
    requires
        is_ascii_chars(s),
        s.len() <= 3,
    ensures
        str4_kept(encode_utf8(s)) == encode_utf8(s),
        bytes_text(encode_utf8(s)) == Some(s),
{
    is_ascii_chars_encode_utf8(s);
    lemma_short_text_is_kept(s);
}

/// The language code of a stream, as a four-byte fixed string holds it: at
/// most three bytes.  They are the first bytes of the text that the code was
/// made of, and need not be a text themselves: the third byte may end inside
/// a character.
#[derive(Debug, PartialEq, Eq)]
pub struct LangCode {
    bytes: Vec<u8>,
    text: Option<String>,
}

impl View for LangCode {
    type V = Seq<u8>;

    closed spec fn view(&self) -> Seq<u8> {
        self.bytes@
    }
}

impl DeepView for LangCode {
    type V = Seq<u8>;

    open spec fn deep_view(&self) -> Seq<u8> {
        self@
    }
}

impl Clone for LangCode {
    fn clone(&self) -> (r: Self)
        ensures
            r@ == self@,
    {
        proof {
            use_type_invariant(self);
        }
        let text = match &self.text {
            Some(text) => Some(text.clone()),
            None => None,
        };
        LangCode { bytes: self.bytes.clone(), text }
    }
}

impl LangCode {
    #[verifier::type_invariant]
    spec fn fits(&self) -> bool {
        &&& self.bytes@.len() <= 3
        &&& self.text.deep_view() == bytes_text(self.bytes@)
    }

    /// The code that stands for `text`: the bytes of `text` where it has at
    /// most three, else its first three bytes.
    pub fn new(text: &str) -> (r: LangCode)
        ensures
            r@ == str4_kept(encode_utf8(text@)),
    {
        let (bytes, kept) = str4_contents(text);
        LangCode { bytes, text: kept }
    }

    /// The bytes of the code: three at most.
    pub fn as_bytes(&self) -> (r: &[u8])
        ensures
            r@ == self@,
            self@.len() <= 3,
    {
        proof {
            use_type_invariant(self);
        }
        self.bytes.as_slice()
    }

    /// The code as text; `None` where its bytes are no text.
    pub fn as_str(&self) -> (r: Option<&str>)
        ensures
            r.deep_view() == bytes_text(self@),
    {
        proof {
            use_type_invariant(self);
        }
        match &self.text {
            Some(text) => Some(text.as_str()),
            None => None,
        }
    }

    /// True when both codes hold the same bytes.
    pub fn same(&self, other: &LangCode) -> (r: bool)
        ensures
            r == (self@ == other@),
    {
        if self.bytes.len() != other.bytes.len() {
            return false;
        }
        let mut i: usize = 0;
        while i < self.bytes.len()
            invariant
                i <= self.bytes@.len(),
                self.bytes@.len() == other.bytes@.len(),
                forall|j: int| 0 <= j < i ==> self.bytes@[j] == other.bytes@[j],
            decreases self.bytes@.len() - i,
        {
            if self.bytes[i] != other.bytes[i] {
                return false;
            }
            i += 1;
        }
        assert(self.bytes@ =~= other.bytes@);
        true
    }
}

/// The map that a list of (code, value) pairs stands for: a later pair
/// replaces an earlier one with the same code.
pub open spec fn entries_map(entries: Seq<(String, String)>) -> Map<Seq<char>, Seq<char>>
    decreases entries.len(),
{
    if entries.len() == 0 {
        Map::empty()
    } else {
        entries_map(entries.drop_last()).insert(entries.last().0@, entries.last().1@)
    }
}

/// A code is in the map exactly when some pair has it, and the map gives it
/// the value of the last such pair.
pub proof fn lemma_entries_map(entries: Seq<(String, String)>, code: Seq<char>, k: int)
    ensures
        entries_map(entries).contains_key(code) <==> exists|j: int|
            0 <= j < entries.len() && (#[trigger] entries[j]).0@ == code,
        (0 <= k < entries.len() && entries[k].0@ == code && forall|j: int|
            k < j < entries.len() ==> (#[trigger] entries[j]).0@ != code) ==> entries_map(
            entries,
        )[code] == entries[k].1@,
    decreases entries.len(),
{
    if entries.len() > 0 {
        let rest = entries.drop_last();
        lemma_entries_map(rest, code, k);
        if entries.last().0@ != code {
            if exists|j: int| 0 <= j < entries.len() && (#[trigger] entries[j]).0@ == code {
                let j = choose|j: int|
                    0 <= j < entries.len() && (#[trigger] entries[j]).0@ == code;
                assert(rest[j].0@ == code);
            }
            if 0 <= k < entries.len() && entries[k].0@ == code && forall|j: int|
                k < j < entries.len() ==> (#[trigger] entries[j]).0@ != code {
                assert forall|j: int| k < j < rest.len() implies (#[trigger] rest[j]).0@
                    != code by {
                    assert(rest[j] == entries[j]);
                }
            }
        }
    }
}

/// What a table makes of a code: the value it holds for the code, or the
/// code itself where it holds none.
pub open spec fn resolved(table: Map<Seq<char>, Seq<char>>, code: Seq<char>) -> Seq<char> {
    if table.contains_key(code) {
        table[code]
    } else {
        code
    }
}

/// A table from language codes to texts: to the name of the language, or to
/// the tag that the platform uses for it.
#[derive(Debug)]
pub struct LanguageTable {
    entries: Vec<(String, String)>,
}

impl View for LanguageTable {
    type V = Map<Seq<char>, Seq<char>>;

    closed spec fn view(&self) -> Map<Seq<char>, Seq<char>> {
        entries_map(self.entries@)
    }
}

impl LanguageTable {
    /// The table without entries.
    pub fn new() -> (r: LanguageTable)
        ensures
            r@ == Map::<Seq<char>, Seq<char>>::empty(),
    {
        LanguageTable { entries: Vec::new() }
    }

    /// Gives `code` the value `value`, in place of any value it had.
    pub fn insert(&mut self, code: &str, value: &str)
        ensures
            final(self)@ == old(self)@.insert(code@, value@),
    {
        let ghost before = self.entries@;
        self.entries.push((code.to_owned(), value.to_owned()));
        assert(self.entries@.drop_last() =~= before);
    }

    /// The value that the table holds for `code`, if any.
    pub fn get(&self, code: &str) -> (r: Option<&str>)
        ensures
            match r {
                Some(value) => self@.contains_key(code@) && self@[code@] == value@,
                None => !self@.contains_key(code@),
            },
    {
        let mut i: usize = self.entries.len();
        while i > 0
            invariant
                i <= self.entries@.len(),
                forall|j: int| i <= j < self.entries@.len() ==> (#[trigger] self.entries@[j]).0@
                    != code@,
            decreases i,
        {
            i -= 1;
            if self.entries[i].0.as_str().eq(code) {
                proof {
                    lemma_entries_map(self.entries@, code@, i as int);
                }
                return Some(self.entries[i].1.as_str());
            }
        }
        proof {
            lemma_entries_map(self.entries@, code@, 0);
        }
        None
    }

    /// The value that the table holds for `code`, or `code` itself where it
    /// holds none.
    pub fn resolve<'a>(&'a self, code: &'a str) -> (r: &'a str)
        ensures
            r@ == resolved(self@, code@),
    {
        match self.get(code) {
            Some(value) => value,
            None => code,
        }
    }
}

} // verus!
