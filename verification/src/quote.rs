//! Quoting of names and values for the text of a query.

use vstd::prelude::*;

verus! {

/// `text` with every character that `twice` picks written twice.
pub open spec fn with_doubled(text: Seq<char>, twice: spec_fn(char) -> bool) -> Seq<char>
    decreases text.len(),
{
    if text.len() == 0 {
        seq![]
    } else if twice(text[0]) {
        seq![text[0], text[0]] + with_doubled(text.skip(1), twice)
    } else {
        seq![text[0]] + with_doubled(text.skip(1), twice)
    }
}

/// The characters that a string constant writes twice.
pub open spec fn doubled_in_literal() -> spec_fn(char) -> bool {
    |c: char| c == '\'' || c == '\\'
}

/// A string constant for `text`: in single quotes, with quotes and backslashes doubled, and
/// with an `E` before it where it holds a backslash.
pub open spec fn quoted_literal(text: Seq<char>) -> Seq<char> {
    let body = seq!['\''] + with_doubled(text, doubled_in_literal()) + seq!['\''];
    if text.contains('\\') {
        seq!['E'] + body
    } else {
        body
    }
}

/// A name in double quotes, with the double quotes in it doubled.
pub open spec fn double_quoted(name: Seq<char>) -> Seq<char> {
    seq!['"'] + with_doubled(name, |c: char| c == '"') + seq!['"']
}

/// Whether `c` can stand in a name without quotes.
pub open spec fn is_name_char(c: char) -> bool {
    ('a' <= c <= 'z') || ('0' <= c <= '9') || c == '_'
}

/// Whether `name` has the form of a name without quotes: lower-case letters, digits and
/// underscores, with no digit at the start.
pub open spec fn is_plain_name(name: Seq<char>) -> bool {
    &&& forall|i: int| 0 <= i < name.len() ==> is_name_char(#[trigger] name[i])
    &&& name.len() > 0 ==> !('0' <= name[0] <= '9')
}

/// Whether `quoted` is a way to write `name`: the name itself where it needs no quotes, or the
/// name in double quotes.
pub open spec fn is_written_name(name: Seq<char>, quoted: Seq<char>) -> bool {
    quoted == double_quoted(name) || (is_plain_name(name) && quoted == name)
}

/// What `pg_escape::quote_identifier` returns for a name.
pub uninterp spec fn quoted_identifier(name: Seq<char>) -> Seq<char>;

/// Calls `pg_escape::quote_identifier`.
///
/// The contract names its result, and says that the result is the name as it is or the name in
/// double quotes, and that a name which is not plain is always quoted. Which of the plain names
/// are keywords, and so are quoted too, is left to the crate's table.
#[verifier::external_body]
pub(crate) fn quote_identifier(name: &str) -> (r: String)
    ensures
        r@ == quoted_identifier(name@),
        is_written_name(name@, r@),
{
    pg_escape::quote_identifier(name).into_owned()
}

/// `pg_escape::quote_literal` wraps the text in single quotes, repeats each quote and each
/// backslash, and puts an `E` in front where there is a backslash.
pub assume_specification[ pg_escape::quote_literal ](literal: &str) -> (r: String)
    ensures
        r@ == quoted_literal(literal@),
;

/// Reads on in a string constant, after its opening quote, up to its closing one: what it
/// stands for, and the text after it. A quote written twice stands for one. Where the constant
/// has backslash escapes, a backslash written twice stands for one; no other escape is read.
pub open spec fn read_literal_body(text: Seq<char>, escapes: bool) -> Option<
    (Seq<char>, Seq<char>),
>
    decreases text.len(),
{
    if text.len() == 0 {
        None
    } else if text[0] == '\'' && !(text.len() > 1 && text[1] == '\'') {
        Some((seq![], text.skip(1)))
    } else if text[0] == '\\' && escapes && !(text.len() > 1 && text[1] == '\\') {
        None
    } else {
        let width: int = if text[0] == '\'' || (text[0] == '\\' && escapes) {
            2
        } else {
            1
        };
        match read_literal_body(text.skip(width), escapes) {
            Some((value, rest)) => Some((seq![text[0]] + value, rest)),
            None => None,
        }
    }
}

/// Reads the string constant at the start of a text: what it stands for, and the text after it.
pub open spec fn read_literal(text: Seq<char>) -> Option<(Seq<char>, Seq<char>)> {
    if text.len() > 1 && text[0] == 'E' && text[1] == '\'' {
        read_literal_body(text.skip(2), true)
    } else if text.len() > 0 && text[0] == '\'' {
        read_literal_body(text.skip(1), false)
    } else {
        None
    }
}

proof fn lemma_read_literal_body(value: Seq<char>, rest: Seq<char>, escapes: bool)
    requires
        rest.len() == 0 || rest[0] != '\'',
        !escapes ==> !value.contains('\\'),
    ensures
        read_literal_body(
            with_doubled(value, doubled_in_literal()) + seq!['\''] + rest,
            escapes,
        ) == Some((value, rest)),
    decreases value.len(),
{
    let written = with_doubled(value, doubled_in_literal()) + seq!['\''] + rest;
    if value.len() == 0 {
        assert(written.skip(1) == rest);
        assert(value == Seq::<char>::empty());
        assert(written[0] == '\'');
        assert(written.len() > 1 ==> written[1] == rest[0]);
    } else {
        let tail = value.skip(1);
        assert(!escapes ==> !tail.contains('\\')) by {
            if tail.contains('\\') {
                let i = choose|i: int| 0 <= i < tail.len() && tail[i] == '\\';
                assert(value[i + 1] == '\\');
            }
        }
        lemma_read_literal_body(tail, rest, escapes);
        let after = with_doubled(tail, doubled_in_literal()) + seq!['\''] + rest;
        assert(value.contains(value[0]));
        assert(seq![value[0]] + tail == value);
        if doubled_in_literal()(value[0]) {
            assert(written == seq![value[0], value[0]] + after);
            assert(written.skip(2) == after);
        } else {
            assert(written == seq![value[0]] + after);
            assert(written.skip(1) == after);
        }
    }
}

/// A quoted value is read back as it was, whatever it holds, and the reading stops where the
/// quoted text ends: a value cannot add anything else to a query.
pub proof fn law_literal_reads_back(value: Seq<char>, rest: Seq<char>)
    requires
        rest.len() == 0 || rest[0] != '\'',
    ensures
        read_literal(quoted_literal(value) + rest) == Some((value, rest)),
{
    let escapes = value.contains('\\');
    let body = with_doubled(value, doubled_in_literal()) + seq!['\''] + rest;
    lemma_read_literal_body(value, rest, escapes);
    if escapes {
        assert((quoted_literal(value) + rest).skip(2) == body);
    } else {
        assert((quoted_literal(value) + rest).skip(1) == body);
    }
}

/// Reads on in a quoted name, after its opening quote, up to its closing one: the name, and
/// the text after it. A double quote written twice stands for one.
pub open spec fn read_quoted_name(text: Seq<char>) -> Option<(Seq<char>, Seq<char>)>
    decreases text.len(),
{
    if text.len() == 0 {
        None
    } else if text[0] == '"' && !(text.len() > 1 && text[1] == '"') {
        Some((seq![], text.skip(1)))
    } else {
        let width: int = if text[0] == '"' {
            2
        } else {
            1
        };
        match read_quoted_name(text.skip(width)) {
            Some((name, rest)) => Some((seq![text[0]] + name, rest)),
            None => None,
        }
    }
}

/// Reads the longest run of characters that can stand in a name without quotes, and the text
/// after it.
pub open spec fn read_plain_name(text: Seq<char>) -> (Seq<char>, Seq<char>)
    decreases text.len(),
{
    if text.len() == 0 || !is_name_char(text[0]) {
        (seq![], text)
    } else {
        let (name, rest) = read_plain_name(text.skip(1));
        (seq![text[0]] + name, rest)
    }
}

/// Reads the name at the start of a text, quoted or not: the name, and the text after it.
pub open spec fn read_name(text: Seq<char>) -> Option<(Seq<char>, Seq<char>)> {
    if text.len() > 0 && text[0] == '"' {
        read_quoted_name(text.skip(1))
    } else {
        Some(read_plain_name(text))
    }
}

proof fn lemma_read_quoted_name(name: Seq<char>, rest: Seq<char>)
    requires
        rest.len() == 0 || rest[0] != '"',
    ensures
        read_quoted_name(with_doubled(name, |c: char| c == '"') + seq!['"'] + rest) == Some(
            (name, rest),
        ),
    decreases name.len(),
{
    let twice = |c: char| c == '"';
    let written = with_doubled(name, twice) + seq!['"'] + rest;
    if name.len() == 0 {
        assert(written.skip(1) == rest);
        assert(name == Seq::<char>::empty());
        assert(written[0] == '"');
        assert(written.len() > 1 ==> written[1] == rest[0]);
    } else {
        let tail = name.skip(1);
        lemma_read_quoted_name(tail, rest);
        let after = with_doubled(tail, twice) + seq!['"'] + rest;
        assert(seq![name[0]] + tail == name);
        if twice(name[0]) {
            assert(written == seq![name[0], name[0]] + after);
            assert(written.skip(2) == after);
        } else {
            assert(written == seq![name[0]] + after);
            assert(written.skip(1) == after);
        }
    }
}

proof fn lemma_read_plain_name(name: Seq<char>, rest: Seq<char>)
    requires
        forall|i: int| 0 <= i < name.len() ==> is_name_char(#[trigger] name[i]),
        rest.len() == 0 || !is_name_char(rest[0]),
    ensures
        read_plain_name(name + rest) == (name, rest),
    decreases name.len(),
{
    let text = name + rest;
    if name.len() == 0 {
        assert(text == rest);
        assert(name == Seq::<char>::empty());
    } else {
        let tail = name.skip(1);
        assert(forall|i: int| 0 <= i < tail.len() ==> is_name_char(#[trigger] tail[i]));
        lemma_read_plain_name(tail, rest);
        assert(text.skip(1) == tail + rest);
        assert(seq![name[0]] + tail == name);
        assert(is_name_char(text[0]));
    }
}

/// A written name is read back as it was, whatever it holds, and the reading stops where the
/// written name ends.
pub proof fn law_name_reads_back(name: Seq<char>, written: Seq<char>, rest: Seq<char>)
    requires
        is_written_name(name, written),
        rest.len() == 0 || (rest[0] != '"' && !is_name_char(rest[0])),
    ensures
        read_name(written + rest) == Some((name, rest)),
{
    if written == double_quoted(name) {
        lemma_read_quoted_name(name, rest);
        assert((written + rest).skip(1) == with_doubled(name, |c: char| c == '"') + seq!['"']
            + rest);
    } else {
        lemma_read_plain_name(name, rest);
        if name.len() > 0 {
            assert(is_name_char(name[0]));
            assert((written + rest)[0] == name[0]);
        } else {
            assert(written + rest == rest);
        }
    }
}

} // verus!
