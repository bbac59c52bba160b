//! Journal entries of mutating operations: what is recorded before a
//! mutation, how the entry is closed after it, and what a replay decides.

use crate::text;
use vstd::prelude::*;

verus! {

/// What a JSON object holds under a name.
#[derive(Debug)]
pub enum JsonField {
    /// Nothing.
    Missing,
    /// `null`.
    Null,
    /// An integer of 64 bits with sign.
    Int(i64),
    /// A string.
    Text(String),
    /// Any other value, as compact JSON.
    Other(String),
}

/// A hexadecimal digit, in lower case.
pub open spec fn hex_digit(n: int) -> char {
    if n < 10 {
        text::digit(n)
    } else {
        ('a' as int + n - 10) as char
    }
}

/// A character as it stands in a JSON string.
pub open spec fn json_char(c: char) -> Seq<char> {
    if c == '"' || c == '\\' {
        seq!['\\', c]
    } else if c == '\u{8}' {
        seq!['\\', 'b']
    } else if c == '\u{9}' {
        seq!['\\', 't']
    } else if c == '\u{A}' {
        seq!['\\', 'n']
    } else if c == '\u{C}' {
        seq!['\\', 'f']
    } else if c == '\u{D}' {
        seq!['\\', 'r']
    } else if 32 > c as int {
        seq!['\\', 'u', '0', '0', hex_digit(c as int / 16), hex_digit(c as int % 16)]
    } else {
        seq![c]
    }
}

/// The characters of a JSON string, without its quotes.
pub open spec fn json_chars(s: Seq<char>) -> Seq<char>
    decreases s.len(),
{
    if s.len() == 0 {
        Seq::empty()
    } else {
        json_chars(s.drop_last()) + json_char(s.last())
    }
}

/// A text as a JSON string.
pub open spec fn json_string(s: Seq<char>) -> Seq<char> {
    seq!['"'] + json_chars(s) + seq!['"']
}

/// Displays a `serde_json::Value` that holds a string: in quotes, with quotes,
/// backslashes and control characters escaped and every other character as it
/// is.
#[verifier::external_body]
pub(crate) fn write_json_string(s: &str) -> (r: String)
    ensures
        r@ == json_string(s@),
{
    serde_json::Value::from(s).to_string()
}

impl JsonField {
    /// The value as compact JSON.
    pub open spec fn shown(self) -> Seq<char> {
        match self {
            JsonField::Missing => "null"@,
            JsonField::Null => "null"@,
            JsonField::Int(n) => text::signed_decimal(n as int),
            JsonField::Text(s) => json_string(s@),
            JsonField::Other(s) => s@,
        }
    }

    /// The value as compact JSON.
    pub fn show(&self) -> (r: String)
        ensures
            r@ == self.shown(),
    {
        match self {
            JsonField::Missing => text::owned("null"),
            JsonField::Null => text::owned("null"),
            JsonField::Int(n) => text::i64_text(*n),
            JsonField::Text(s) => write_json_string(s.as_str()),
            JsonField::Other(s) => text::owned(s.as_str()),
        }
    }

    /// The string, where the value is one.
    pub open spec fn as_text(self) -> Option<Seq<char>> {
        match self {
            JsonField::Text(s) => Some(s@),
            _ => None,
        }
    }

    /// The string, where the value is one.
    pub fn as_str(&self) -> (r: Option<&str>)
        ensures
            text::opt_str(r) == self.as_text(),
    {
        match self {
            JsonField::Text(s) => Some(s.as_str()),
            _ => None,
        }
    }
}

/// How a journal entry is closed once the mutation has been tried.
#[derive(Debug)]
pub enum JournalClose {
    /// The mutation was done.
    Done {
        /// The entry.
        op_id: i64,
        /// The row and the name under which it is recorded, where the entry
        /// records it.
        row: Option<(&'static str, i64)>,
        /// Name under which the new value is recorded.
        key: &'static str,
        /// The new value.
        value: String,
        /// Where the entry comes from, for the log.
        context: &'static str,
    },
    /// The mutation failed.
    Failed {
        /// The entry.
        op_id: i64,
        /// Why.
        reason: String,
        /// Where the entry comes from, for the log.
        context: &'static str,
    },
}

/// A closing in terms of its texts.
pub enum CloseView {
    /// Entry, recorded row, name, value and context.
    Done(i64, Option<(Seq<char>, i64)>, Seq<char>, Seq<char>, Seq<char>),
    /// Entry, reason and context.
    Failed(i64, Seq<char>, Seq<char>),
}

impl View for JournalClose {
    type V = CloseView;

    open spec fn view(&self) -> CloseView {
        match *self {
            JournalClose::Done { op_id, row, key, value, context } => CloseView::Done(
                op_id,
                match row {
                    Some((name, id)) => Some((name@, id)),
                    None => None,
                },
                key@,
                value@,
                context@,
            ),
            JournalClose::Failed { op_id, reason, context } => CloseView::Failed(
                op_id,
                reason@,
                context@,
            ),
        }
    }
}

/// An entry that records the change of one text field of one row.
#[derive(Debug)]
pub struct ChangeEntry {
    /// Kind of operation.
    pub op_kind: &'static str,
    /// Kind of row.
    pub target_kind: &'static str,
    /// The row.
    pub target_id: i64,
    /// The value before.
    pub current: String,
    /// The value asked for.
    pub intent: String,
    /// Whether the operation can be undone.
    pub reversible: bool,
}

/// A field is read as a text exactly where it is one.
pub proof fn law_field_texts(s: String, n: i64)
    ensures
        JsonField::Text(s).as_text() == Some(s@),
        JsonField::Int(n).as_text() is None,
        JsonField::Null.as_text() is None,
        JsonField::Missing.as_text() is None,
        JsonField::Other(s).as_text() is None,
        JsonField::Int(n).shown() == text::signed_decimal(n as int),
        JsonField::Null.shown() == "null"@,
        JsonField::Other(s).shown() == s@,
{
}

/// A JSON string stands in quotes. Quotes and backslashes in it have a
/// backslash before them, the signs below the blank are escaped, and every
/// other sign stands for itself.
pub proof fn law_json_strings(s: Seq<char>, c: char)
    ensures
        json_string(Seq::empty()) == seq!['"', '"'],
        json_chars(s.push(c)) == json_chars(s) + json_char(c),
        json_char('"') == seq!['\\', '"'],
        json_char('\\') == seq!['\\', '\\'],
        json_char('\u{8}') == seq!['\\', 'b'],
        json_char('\u{9}') == seq!['\\', 't'],
        json_char('\u{A}') == seq!['\\', 'n'],
        json_char('\u{C}') == seq!['\\', 'f'],
        json_char('\u{D}') == seq!['\\', 'r'],
        32 > c as int ==> json_char(c).len() == 2 || json_char(c).len() == 6,
        32 <= c as int && c != '"' && c != '\\' ==> json_char(c) == seq![c],
        json_char('\u{1F}') == seq!['\\', 'u', '0', '0', '1', 'f'],
        json_string(s) == seq!['"'] + json_chars(s) + seq!['"'],
{
    assert(s.push(c).drop_last() =~= s);
    assert(json_chars(Seq::empty()) =~= Seq::<char>::empty());
    assert(seq!['"'] + Seq::<char>::empty() + seq!['"'] =~= seq!['"', '"']);
    assert(hex_digit(1) == '1' && hex_digit(15) == 'f');
}

} // verus!
