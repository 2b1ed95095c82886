//! Stable pipeline identities.
use crate::text;
use crate::text::push_decimal;
use vstd::prelude::*;

verus! {

/// Stable identity shared by a pipeline's metrics and durable checkpoint storage.
#[derive(Debug, PartialEq, Eq, Hash)]
pub struct PipelineId(String);

/// An invalid stable pipeline identity.
#[derive(Debug, Clone, Copy, PartialEq, Eq, Structural)]
pub enum PipelineIdError {
    Empty,
    TooLong,
    InvalidCharacter { index: usize, character: char },
}

/// How `Debug` for `char` writes a character: in single quotes, escaped where need be.
pub uninterp spec fn quoted(character: char) -> Seq<char>;

/// A character as `Debug` for `char` writes it.
#[verifier::external_body]
fn quote(character: char) -> (text: String)
    ensures
        text@ == quoted(character),
{
    format!("{character:?}")
}

impl PipelineIdError {
    /// What is wrong, in words.
    pub open spec fn words(self) -> Seq<char> {
        match self {
            PipelineIdError::Empty => "pipeline id must not be empty"@,
            PipelineIdError::TooLong => "pipeline id must not exceed 255 bytes"@,
            PipelineIdError::InvalidCharacter { index, character } => {
                "pipeline id contains invalid character "@ + quoted(character) + " at byte "@
                    + text::decimal(index as nat)
            },
        }
    }

    /// What is wrong, in words.
    pub fn message(self) -> (text: String)
        ensures
            text@ == self.words(),
            self matches PipelineIdError::InvalidCharacter { index, character } ==> text@
                == "pipeline id contains invalid character "@ + quoted(character) + " at byte "@
                + text::decimal(index as nat),
    {
        match self {
            PipelineIdError::Empty => "pipeline id must not be empty".to_owned(),
            PipelineIdError::TooLong => "pipeline id must not exceed 255 bytes".to_owned(),
            PipelineIdError::InvalidCharacter { index, character } => {
                let mut text = "pipeline id contains invalid character ".to_owned();
                text.append(quote(character).as_str());
                text.append(" at byte ");
                push_decimal(&mut text, index as u64);
                text
            },
        }
    }
}

/// Whether an identity may hold a character: an ASCII letter or digit, or one of `-_.:/`.
pub open spec fn is_portable(character: char) -> bool {
    ||| 'a' <= character <= 'z'
    ||| 'A' <= character <= 'Z'
    ||| '0' <= character <= '9'
    ||| character == '-'
    ||| character == '_'
    ||| character == '.'
    ||| character == ':'
    ||| character == '/'
}

/// Whether every character of a text is portable.
pub open spec fn all_portable(text: Seq<char>) -> bool {
    forall|i: int| 0 <= i < text.len() ==> is_portable(#[trigger] text[i])
}

/// Whether a text is an identity.
pub open spec fn is_identity(text: Seq<char>) -> bool {
    &&& text.len() > 0
    &&& vstd::utf8::encode_utf8(text).len() <= PipelineId::MAX_LEN
    &&& all_portable(text)
}

/// Whether `error` is what is wrong with a text.
pub open spec fn is_fault(text: Seq<char>, error: PipelineIdError) -> bool {
    match error {
        PipelineIdError::Empty => text.len() == 0,
        PipelineIdError::TooLong => text.len() > 0 && vstd::utf8::encode_utf8(text).len() > PipelineId::MAX_LEN,
        PipelineIdError::InvalidCharacter { index, character } => {
            &&& text.len() > 0
            &&& vstd::utf8::encode_utf8(text).len() <= PipelineId::MAX_LEN
            &&& exists|i: int|
                {
                    &&& 0 <= i < text.len()
                    &&& #[trigger] text[i] == character
                    &&& !is_portable(character)
                    &&& all_portable(text.take(i))
                    &&& index == vstd::utf8::encode_utf8(text.take(i)).len()
                }
        },
    }
}

/// Whether a character is portable.
fn is_valid_character(character: char) -> (valid: bool)
    ensures
        valid == is_portable(character),
{
    ('a' <= character && character <= 'z') || ('A' <= character && character <= 'Z') || ('0'
        <= character && character <= '9') || character == '-' || character == '_' || character
        == '.' || character == ':' || character == '/'
}

impl View for PipelineId {
    type V = Seq<char>;

    closed spec fn view(&self) -> Seq<char> {
        self.0@
    }
}

impl PipelineId {
    #[verifier::type_invariant]
    spec fn is_valid(self) -> bool {
        is_identity(self.0@)
    }

    /// The most bytes that an identity holds.
    pub const MAX_LEN: usize = 255;

    /// Check a text that is to be an identity.
    pub fn new(value: impl Into<String>) -> (id: Result<Self, PipelineIdError>)
        ensures
            exists|text: String|
                {
                    &&& call_ensures(Into::<String>::into, (value,), text)
                    &&& match id {
                        Ok(id) => is_identity(text@) && id@ == text@,
                        Err(error) => !is_identity(text@) && is_fault(text@, error),
                    }
                },
    {
        let text: String = value.into();
        Self::from_text(text)
    }

    /// Check a text that is to be an identity.
    pub fn from_text(value: String) -> (id: Result<Self, PipelineIdError>)
        ensures
            match id {
                Ok(id) => is_identity(value@) && id@ == value@,
                Err(error) => !is_identity(value@) && is_fault(value@, error),
            },
    {
        let count = value.as_str().unicode_len();
        if count == 0 {
            return Err(PipelineIdError::Empty);
        }
        if value.as_str().as_bytes().len() > PipelineId::MAX_LEN {
            return Err(PipelineIdError::TooLong);
        }
        let mut index: usize = 0;
        while index < count
            invariant
                index <= count == value@.len(),
                0 < count,
                vstd::utf8::encode_utf8(value@).len() <= PipelineId::MAX_LEN,
                all_portable(value@.take(index as int)),
            decreases count - index,
        {
            let character = value.as_str().get_char(index);
            if !is_valid_character(character) {
                proof {
                    assert(value@[index as int] == character);
                    vstd::utf8::is_ascii_chars_encode_utf8(value@.take(index as int));
                }
                return Err(PipelineIdError::InvalidCharacter { index, character });
            }
            proof {
                assert(value@.take(index + 1) =~= value@.take(index as int).push(character));
            }
            index = index + 1;
        }
        proof {
            assert(value@.take(count as int) =~= value@);
        }
        Ok(PipelineId(value))
    }

    /// The identity as text.
    pub fn as_str(&self) -> (text: &str)
        ensures
            text@ == self@,
            is_identity(text@),
    {
        proof {
            use_type_invariant(self);
        }
        self.0.as_str()
    }

    /// The identity of a pipeline that has not been given one.
    pub fn unnamed() -> (id: Self)
        ensures
            id@ == "unnamed"@,
    {
        proof {
            reveal_strlit("unnamed");
            vstd::utf8::is_ascii_chars_encode_utf8("unnamed"@);
        }
        PipelineId("unnamed".to_owned())
    }
}

impl AsRef<str> for PipelineId {
    fn as_ref(&self) -> (text: &str)
        ensures
            text@ == self@,
    {
        self.as_str()
    }
}

impl Clone for PipelineId {
    fn clone(&self) -> (copy: Self)
        ensures
            copy == *self,
    {
        proof {
            use_type_invariant(self);
        }
        PipelineId(self.0.clone())
    }
}

/// An identity may hold the ASCII letters and digits and the characters `-`, `_`, `.`, `:` and `/`,
/// and nothing else, given here by their code points.
pub proof fn portable_characters_are_ascii(character: char)
    ensures
        is_portable(character) <==> {
            let code = character as int;
            ||| 48 <= code <= 57
            ||| 65 <= code <= 90
            ||| 97 <= code <= 122
            ||| code == 45
            ||| code == 46
            ||| code == 47
            ||| code == 58
            ||| code == 95
        },
{
}

/// A text is an identity exactly where it has 1 to 255 characters, all of them portable.
pub proof fn identities_are_short_and_portable(text: Seq<char>)
    ensures
        is_identity(text) <==> 1 <= text.len() <= 255 && all_portable(text),
{
    if all_portable(text) {
        assert(vstd::utf8::is_ascii_chars(text)) by {
            assert forall|i: int| 0 <= i < text.len() implies 0 <= #[trigger] text[i] as nat
                <= 127 by {
                assert(is_portable(text[i]));
            }
        }
        vstd::utf8::is_ascii_chars_encode_utf8(text);
    }
}

/// One thing is wrong with a text that is no identity, and nothing with one that is. A character that
/// is not portable is the first of its kind, and is told with how many bytes stand before it.
pub proof fn faults_are_told_apart(
    text: Seq<char>,
    error: PipelineIdError,
    other: PipelineIdError,
)
    requires
        is_fault(text, error),
    ensures
        !is_identity(text),
        is_fault(text, other) ==> other == error,
        error == PipelineIdError::Empty <==> text.len() == 0,
        error matches PipelineIdError::InvalidCharacter { index, character } ==> {
            &&& index < text.len()
            &&& text[index as int] == character
            &&& !is_portable(character)
            &&& forall|i: int| 0 <= i < index ==> is_portable(#[trigger] text[i])
        },
{
    if error is InvalidCharacter {
        lemma_first_fault(text, error);
    }
    if other is InvalidCharacter && is_fault(text, other) {
        lemma_first_fault(text, other);
    }
}

/// Where the character stands that is not portable.
proof fn lemma_first_fault(text: Seq<char>, error: PipelineIdError)
    requires
        is_fault(text, error),
        error is InvalidCharacter,
    ensures
        ({
            let index = error->index as int;
            &&& 0 <= index < text.len()
            &&& text[index] == error->character
            &&& !is_portable(text[index])
            &&& forall|i: int| 0 <= i < index ==> is_portable(#[trigger] text[i])
        }),
{
    let (index, character) = (error->index, error->character);
    let at = choose|i: int|
        {
            &&& 0 <= i < text.len()
            &&& #[trigger] text[i] == character
            &&& !is_portable(character)
            &&& all_portable(text.take(i))
            &&& index == vstd::utf8::encode_utf8(text.take(i)).len()
        };
    let before = text.take(at);
    assert forall|i: int| 0 <= i < before.len() implies 0 <= #[trigger] before[i] as nat
        <= 127 by {
        assert(is_portable(before[i]));
    }
    vstd::utf8::is_ascii_chars_encode_utf8(before);
    assert forall|i: int| 0 <= i < at implies is_portable(#[trigger] text[i]) by {
        assert(is_portable(before[i]));
    }
}

} // verus!
