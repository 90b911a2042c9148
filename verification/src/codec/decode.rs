//! Reading the secrets file.

use crate::codec::format::ascii;
use crate::codec::format::bare;
use crate::codec::format::bare_start;
use crate::codec::format::classify;
use crate::codec::format::empty_header;
use crate::codec::format::field_prefix;
use crate::codec::format::finish;
use crate::codec::format::header;
use crate::codec::format::indent;
use crate::codec::format::name_byte;
use crate::codec::format::name_len;
use crate::codec::format::other_line;
use crate::codec::format::reserved;
use crate::codec::format::parse_document;
use crate::codec::format::parse_from;
use crate::codec::format::quotable;
use crate::codec::format::read_value;
use crate::codec::format::step_key;
use crate::codec::format::step_line;
use crate::codec::format::step_value;
use crate::codec::format::text_of;
use crate::codec::format::value_line;
use crate::codec::format::DecodeError;
use crate::codec::format::DecodeFault;
use crate::codec::format::Draft;
use crate::codec::format::Line;
use crate::codec::format::COLON;
use crate::codec::format::HASH;
use crate::codec::format::LINE_FEED;
use crate::codec::format::QUOTE;
use crate::codec::format::SPACE;
use crate::codec::laws::lemma_first_line_at;
use crate::codec::laws::lemma_indent_at;
use crate::codec::laws::lemma_name_len_at;
use crate::secrets::url_view;
use crate::secrets::AttesterSecretKey;
use crate::secrets::ConsensusSecrets;
use crate::secrets::DatabaseSecrets;
use crate::secrets::Field;
use crate::secrets::L1Secrets;
use crate::secrets::NodeSecretKey;
use crate::secrets::SecretsConfig;
use crate::secrets::SecretsView;
use crate::secrets::Section;
use crate::secrets::ValidatorSecretKey;
use crate::sensitive::parse_url;
use crate::sensitive::parsed_url_text;
use crate::sensitive::url_text;
use crate::sensitive::SensitiveString;
use vstd::prelude::*;
use vstd::slice::slice_subrange;
use vstd::string::is_ascii;
use vstd::string::is_ascii_spec_bytes;
use vstd::string::StringSliceAdditionalSpecFns;
use zksync_basic_types::url::SensitiveUrl;

verus! {

/// `String::from_utf8` on ASCII bytes, which are valid UTF-8: the text of
/// these bytes, a character for each.
#[verifier::external_body]
fn ascii_string(bytes: Vec<u8>) -> (text: String)
    requires
        forall|i: int| 0 <= i < bytes@.len() ==> bytes@[i] <= 127,
    ensures
        text@ == text_of(bytes@),
{
    String::from_utf8(bytes).unwrap()
}

/// What a line says.
enum ReadLine {
    Blank,
    Comment,
    Open(Section),
    Empty(Section),
    Value(Field, Option<String>),
    Key { indent: usize, reserved: bool },
    Other { indent: usize },
}

impl View for ReadLine {
    type V = Line;

    closed spec fn view(&self) -> Line {
        match self {
            ReadLine::Blank => Line::Blank,
            ReadLine::Comment => Line::Comment,
            ReadLine::Open(section) => Line::Open(*section),
            ReadLine::Empty(section) => Line::Empty(*section),
            ReadLine::Value(field, text) => Line::Value(
                *field,
                match text {
                    Some(text) => Some(text@),
                    None => None,
                },
            ),
            ReadLine::Key { indent, reserved } => Line::Key {
                indent: *indent as nat,
                reserved: *reserved,
            },
            ReadLine::Other { indent } => Line::Other { indent: *indent as nat },
        }
    }
}

/// Whether the bytes of `word` stand in `line` at `at`.
fn has_word_at(line: &[u8], at: usize, word: &str) -> (yes: bool)
    requires
        is_ascii(word),
    ensures
        yes == (at + word@.len() <= line@.len() && line@.subrange(
            at as int,
            at + word@.len(),
        ) == ascii(word@)),
{
    let bytes = word.as_bytes();
    proof {
        is_ascii_spec_bytes(word);
    }
    assert(bytes@ =~= ascii(word@));
    if at > line.len() || bytes.len() > line.len() - at {
        return false;
    }
    let mut i: usize = 0;
    while i < bytes.len()
        invariant
            i <= bytes@.len(),
            at + bytes@.len() <= line@.len() <= usize::MAX,
            bytes@ == ascii(word@),
            forall|j: int| 0 <= j < i ==> line@[at + j] == bytes@[j],
        decreases bytes@.len() - i,
    {
        if line[at + i] != bytes[i] {
            assert(line@.subrange(at as int, at + bytes@.len())[i as int] != bytes@[i as int]);
            return false;
        }
        i += 1;
    }
    assert(line@.subrange(at as int, at + bytes@.len()) =~= bytes@);
    true
}

/// The number of characters of `word`.
fn word_len(word: &str) -> (len: usize)
    requires
        is_ascii(word),
    ensures
        len == word@.len(),
        len == ascii(word@).len(),
{
    proof {
        is_ascii_spec_bytes(word);
    }
    assert(word.spec_bytes().len() == word@.len());
    word.as_bytes().len()
}

/// Whether `line` is the header of `section`.
fn is_header(line: &[u8], section: Section) -> (yes: bool)
    ensures
        yes == (line@ == header(section)),
{
    let name = section.name();
    let len = word_len(name);
    if line.len() == 0 || line.len() - 1 != len {
        return false;
    }
    if has_word_at(line, 0, name) && line[len] == COLON {
        assert(line@ =~= header(section));
        true
    } else {
        assert(header(section).subrange(0, len as int) =~= ascii(name@));
        false
    }
}

/// Whether `line` is the header of `section` as an empty section.
fn is_empty_header(line: &[u8], section: Section) -> (yes: bool)
    ensures
        yes == (line@ == empty_header(section)),
{
    let name = section.name();
    let len = word_len(name);
    proof {
        reveal_strlit(" {}");
    }
    if line.len() < 4 || line.len() - 4 != len {
        return false;
    }
    if has_word_at(line, 0, name) && line[len] == COLON && has_word_at(line, len + 1, " {}") {
        assert(line@ =~= empty_header(section));
        true
    } else {
        assert(empty_header(section).subrange(0, len as int) =~= ascii(name@));
        assert(empty_header(section).subrange(len + 1, len + 4) =~= ascii(" {}"@));
        false
    }
}

/// Where in `line` the value of `field` begins, if `line` begins with what
/// stands before the value of `field`.
fn value_start(line: &[u8], field: Field) -> (start: Option<usize>)
    ensures
        match start {
            Some(start) => field_prefix(field).is_prefix_of(line@) && start == field_prefix(
                field,
            ).len(),
            None => !field_prefix(field).is_prefix_of(line@),
        },
{
    let name = field.name();
    let len = word_len(name);
    proof {
        reveal_strlit("  ");
        reveal_strlit(": ");
    }
    if line.len() < 4 || line.len() - 4 < len {
        return None;
    }
    let prefix = Ghost(field_prefix(field));
    if has_word_at(line, 0, "  ") && has_word_at(line, 2, name) && has_word_at(line, 2 + len, ": ") {
        assert(line@.subrange(0, len + 4) =~= prefix@);
        Some(len + 4)
    } else {
        proof {
            if prefix@.is_prefix_of(line@) {
                let head = line@.subrange(0, len + 4);
                assert(head =~= prefix@);
                assert(line@.subrange(0, 2) =~= head.subrange(0, 2));
                assert(head.subrange(0, 2) =~= ascii("  "@));
                assert(line@.subrange(2, 2 + len) =~= head.subrange(2, 2 + len));
                assert(head.subrange(2, 2 + len) =~= ascii(name@));
                assert(line@.subrange(2 + len, 4 + len) =~= head.subrange(2 + len, 4 + len));
                assert(head.subrange(2 + len, 4 + len) =~= ascii(": "@));
            }
        }
        None
    }
}

/// The bytes of `line` from `from` up to `to`, as a text, if each of them
/// may stand between quotes and, with `spaces` unset, is no space.
fn printable_text(line: &[u8], from: usize, to: usize, spaces: bool) -> (text: Option<String>)
    requires
        from <= to <= line@.len(),
    ensures
        match text {
            Some(text) => {
                &&& text@ == text_of(line@.subrange(from as int, to as int))
                &&& forall|i: int|
                    from <= i < to ==> quotable(#[trigger] line@[i]) && (spaces || bare(line@[i]))
            },
            None => exists|i: int|
                from <= i < to && !(quotable(#[trigger] line@[i]) && (spaces || bare(line@[i]))),
        },
{
    let mut bytes: Vec<u8> = Vec::new();
    let mut i: usize = from;
    while i < to
        invariant
            from <= i <= to <= line@.len(),
            bytes@ == line@.subrange(from as int, i as int),
            forall|j: int|
                from <= j < i ==> quotable(#[trigger] line@[j]) && (spaces || bare(line@[j])),
        decreases to - i,
    {
        let byte = line[i];
        if byte < 32 || byte > 126 || byte == 34 || byte == 92 || (byte == 32 && !spaces) {
            return None;
        }
        bytes.push(byte);
        assert(line@.subrange(from as int, i + 1) =~= line@.subrange(from as int, i as int).push(
            byte,
        ));
        i += 1;
    }
    assert forall|j: int| 0 <= j < bytes@.len() implies bytes@[j] <= 127 by {
        assert(bytes@[j] == line@[from + j]);
    }
    Some(ascii_string(bytes))
}

/// Whether the byte may begin a bare value.
fn is_bare_start(byte: u8) -> (yes: bool)
    ensures
        yes == bare_start(byte),
{
    (97 <= byte && byte <= 122) || (65 <= byte && byte <= 90) || (48 <= byte && byte <= 57)
}

/// The text that the bytes of `line` from `from` on stand for as a value.
fn read_value_at(line: &[u8], from: usize) -> (text: Option<String>)
    requires
        from <= line@.len(),
    ensures
        match text {
            Some(text) => read_value(line@.skip(from as int)) == Some(text@),
            None => read_value(line@.skip(from as int)) is None,
        },
{
    let end = line.len();
    let ghost raw = line@.skip(from as int);
    assert(forall|i: int| 0 <= i < raw.len() ==> raw[i] == line@[from + i]);
    if end - from >= 2 && line[from] == QUOTE && line[end - 1] == QUOTE {
        assert(raw.subrange(1, raw.len() - 1) =~= line@.subrange(from + 1, end - 1));
        let text = printable_text(line, from + 1, end - 1, true);
        proof {
            if text is None {
                let i = choose|i: int| from + 1 <= i < end - 1 && !quotable(#[trigger] line@[i]);
                assert(!quotable(raw[i - from]));
                assert(!bare(raw[0]));
            } else {
                assert forall|i: int| 1 <= i < raw.len() - 1 implies quotable(#[trigger] raw[i]) by {
                    assert(quotable(line@[from + i]));
                }
            }
        }
        text
    } else if end - from >= 1 && is_bare_start(line[from]) {
        assert(raw =~= line@.subrange(from as int, end as int));
        let text = printable_text(line, from, end, false);
        proof {
            if text is None {
                let i = choose|i: int|
                    from <= i < end && !(quotable(#[trigger] line@[i]) && bare(line@[i]));
                assert(!bare(raw[i - from]));
            } else {
                assert forall|i: int| 0 <= i < raw.len() implies bare(#[trigger] raw[i]) by {
                    assert(bare(line@[from + i]));
                }
                assert(raw[0] != QUOTE);
            }
        }
        text
    } else {
        None
    }
}

/// What `line` says if it begins with what stands before the value of
/// `field`; `None` if it does not begin so.
fn read_field(line: &[u8], field: Field) -> (read: Option<ReadLine>)
    ensures
        match read {
            Some(read) => field_prefix(field).is_prefix_of(line@) && read@ == value_line(
                field,
                line@.skip(field_prefix(field).len() as int),
            ),
            None => !field_prefix(field).is_prefix_of(line@),
        },
{
    match value_start(line, field) {
        Some(start) => Some(ReadLine::Value(field, read_value_at(line, start))),
        None => None,
    }
}

/// The number of spaces that `line` begins with.
fn leading_spaces(line: &[u8]) -> (spaces: usize)
    ensures
        spaces == indent(line@),
        spaces <= line@.len(),
{
    let mut spaces: usize = 0;
    while spaces < line.len() && line[spaces] == SPACE
        invariant
            spaces <= line@.len(),
            forall|i: int| 0 <= i < spaces ==> line@[i] == SPACE,
        decreases line@.len() - spaces,
    {
        spaces += 1;
    }
    proof {
        lemma_indent_at(line@, spaces as int);
    }
    spaces
}

/// Whether the byte may stand in a name.
fn is_name_byte(byte: u8) -> (yes: bool)
    ensures
        yes == name_byte(byte),
{
    (97 <= byte && byte <= 122) || (65 <= byte && byte <= 90) || (48 <= byte && byte <= 57) || byte
        == 95 || byte == 45
}

/// Where the name ends that begins in `line` at `from`.
fn name_end(line: &[u8], from: usize) -> (end: usize)
    requires
        from <= line@.len(),
    ensures
        from <= end <= line@.len(),
        end - from == name_len(line@.skip(from as int)),
{
    let mut end: usize = from;
    while end < line.len() && is_name_byte(line[end])
        invariant
            from <= end <= line@.len(),
            forall|i: int| from <= i < end ==> name_byte(#[trigger] line@[i]),
        decreases line@.len() - end,
    {
        end += 1;
    }
    proof {
        let rest = line@.skip(from as int);
        assert forall|i: int| 0 <= i < end - from implies name_byte(#[trigger] rest[i]) by {
            assert(name_byte(line@[from + i]));
        }
        lemma_name_len_at(rest, end - from);
    }
    end
}

/// Whether the bytes of `line` from `from` up to `to` are `word`.
fn is_word(line: &[u8], from: usize, to: usize, word: &str) -> (yes: bool)
    requires
        is_ascii(word),
        from <= to <= line@.len(),
    ensures
        yes == (line@.subrange(from as int, to as int) == ascii(word@)),
{
    to - from == word_len(word) && has_word_at(line, from, word)
}

/// Whether the bytes of `line` from `from` up to `to` are a name of the
/// secrets.
fn is_reserved(line: &[u8], from: usize, to: usize) -> (yes: bool)
    requires
        from <= to <= line@.len(),
    ensures
        yes == reserved(line@.subrange(from as int, to as int)),
{
    is_word(line, from, to, Section::Database.name()) || is_word(
        line,
        from,
        to,
        Section::L1.name(),
    ) || is_word(line, from, to, Section::Consensus.name()) || is_word(
        line,
        from,
        to,
        Field::ServerUrl.name(),
    ) || is_word(line, from, to, Field::ProverUrl.name()) || is_word(
        line,
        from,
        to,
        Field::L1RpcUrl.name(),
    ) || is_word(line, from, to, Field::ValidatorKey.name()) || is_word(
        line,
        from,
        to,
        Field::AttesterKey.name(),
    ) || is_word(line, from, to, Field::NodeKey.name())
}

/// What `line` says, which begins with `spaces` spaces, if it is not blank,
/// no comment and none of the lines of the secrets.
fn read_other(line: &[u8], spaces: usize) -> (read: ReadLine)
    requires
        spaces == indent(line@),
        spaces <= line@.len(),
    ensures
        read@ == other_line(line@),
{
    let end = name_end(line, spaces);
    let ghost rest = line@.skip(spaces as int);
    assert(forall|i: int| 0 <= i < rest.len() ==> rest[i] == line@[spaces + i]);
    if end > spaces && end < line.len() && line[end] == COLON && (end + 1 == line.len() || line[end
        + 1] == SPACE) {
        assert(rest.take(end - spaces) =~= line@.subrange(spaces as int, end as int));
        ReadLine::Key { indent: spaces, reserved: is_reserved(line, spaces, end) }
    } else {
        ReadLine::Other { indent: spaces }
    }
}

/// What `line` says.
fn classify_line(line: &[u8]) -> (read: ReadLine)
    ensures
        read@ == classify(line@),
{
    let spaces = leading_spaces(line);
    if spaces == line.len() {
        ReadLine::Blank
    } else if line[spaces] == HASH {
        ReadLine::Comment
    } else if is_header(line, Section::Database) {
        ReadLine::Open(Section::Database)
    } else if is_header(line, Section::L1) {
        ReadLine::Open(Section::L1)
    } else if is_header(line, Section::Consensus) {
        ReadLine::Open(Section::Consensus)
    } else if is_empty_header(line, Section::Database) {
        ReadLine::Empty(Section::Database)
    } else if is_empty_header(line, Section::L1) {
        ReadLine::Empty(Section::L1)
    } else if is_empty_header(line, Section::Consensus) {
        ReadLine::Empty(Section::Consensus)
    } else if let Some(read) = read_field(line, Field::ServerUrl) {
        read
    } else if let Some(read) = read_field(line, Field::ProverUrl) {
        read
    } else if let Some(read) = read_field(line, Field::L1RpcUrl) {
        read
    } else if let Some(read) = read_field(line, Field::ValidatorKey) {
        read
    } else if let Some(read) = read_field(line, Field::AttesterKey) {
        read
    } else if let Some(read) = read_field(line, Field::NodeKey) {
        read
    } else {
        read_other(line, spaces)
    }
}

/// What has been read of a secrets file so far.
struct Reading {
    open: Option<Section>,
    passing: Option<usize>,
    database: Option<DatabaseSecrets>,
    l1: Option<Option<SensitiveUrl>>,
    consensus: Option<ConsensusSecrets>,
}

impl View for Reading {
    type V = Draft;

    closed spec fn view(&self) -> Draft {
        Draft {
            open: self.open,
            passing: match self.passing {
                Some(base) => Some(base as nat),
                None => None,
            },
            database: match self.database {
                Some(database) => Some(database@),
                None => None,
            },
            l1: match self.l1 {
                Some(url) => Some(url_view(url)),
                None => None,
            },
            consensus: match self.consensus {
                Some(consensus) => Some(consensus@),
                None => None,
            },
        }
    }
}

/// The draft after `section` has begun, unless it has begun before.
fn begin_section(reading: Reading, section: Section, open: bool) -> (begun: Result<
    Reading,
    DecodeFault,
>)
    ensures
        match begun {
            Ok(next) => !reading@.has_section(section) && next@ == reading@.begin(section, open),
            Err(fault) => reading@.has_section(section) && fault == DecodeFault::DuplicateSection(
                section,
            ),
        },
{
    let Reading { open: _, passing: _, database, l1, consensus } = reading;
    let duplicate = Err(DecodeFault::DuplicateSection(section));
    let open = if open {
        Some(section)
    } else {
        None
    };
    match section {
        Section::Database => match database {
            Some(_) => duplicate,
            None => Ok(
                Reading {
                    open,
                    passing: None,
                    database: Some(DatabaseSecrets { server_url: None, prover_url: None }),
                    l1,
                    consensus,
                },
            ),
        },
        Section::L1 => match l1 {
            Some(_) => duplicate,
            None => Ok(Reading { open, passing: None, database, l1: Some(None), consensus }),
        },
        Section::Consensus => match consensus {
            Some(_) => duplicate,
            None => Ok(
                Reading {
                    open,
                    passing: None,
                    database,
                    l1,
                    consensus: Some(
                        ConsensusSecrets { validator_key: None, attester_key: None, node_key: None },
                    ),
                },
            ),
        },
    }
}

/// Whether `section` is the one whose values may follow.
fn is_open(open: &Option<Section>, section: Section) -> (yes: bool)
    ensures
        yes == (*open == Some(section)),
{
    match (open, section) {
        (Some(Section::Database), Section::Database) => true,
        (Some(Section::L1), Section::L1) => true,
        (Some(Section::Consensus), Section::Consensus) => true,
        _ => false,
    }
}

/// The text for a value that is not set yet, if it could be read.
fn fresh_text(set: bool, field: Field, text: Option<String>) -> (fresh: Result<String, DecodeFault>)
    ensures
        match fresh {
            Ok(fresh) => !set && text == Some(fresh),
            Err(fault) => if set {
                fault == DecodeFault::DuplicateField(field)
            } else {
                text is None && fault == DecodeFault::InvalidValue(field)
            },
        },
{
    if set {
        return Err(DecodeFault::DuplicateField(field));
    }
    match text {
        Some(text) => Ok(text),
        None => Err(DecodeFault::InvalidValue(field)),
    }
}

/// The URL for a value that is not set yet, if the text could be read and is
/// one.
fn fresh_url(set: bool, field: Field, text: Option<String>) -> (url: Result<
    SensitiveUrl,
    DecodeFault,
>)
    ensures
        match url {
            Ok(url) => !set && text is Some && parsed_url_text(text.unwrap()@) == Some(
                url_text(url),
            ),
            Err(fault) => if set {
                fault == DecodeFault::DuplicateField(field)
            } else if text is None {
                fault == DecodeFault::InvalidValue(field)
            } else {
                parsed_url_text(text.unwrap()@) is None && fault == DecodeFault::InvalidUrl(field)
            },
        },
{
    match fresh_text(set, field, text) {
        Ok(text) => match parse_url(text.as_str()) {
            Some(url) => Ok(url),
            None => Err(DecodeFault::InvalidUrl(field)),
        },
        Err(fault) => Err(fault),
    }
}

/// The secret for a value that is not set yet, if the text could be read.
fn fresh_key(set: bool, field: Field, text: Option<String>) -> (key: Result<
    SensitiveString,
    DecodeFault,
>)
    ensures
        match key {
            Ok(key) => !set && text is Some && key@ == text.unwrap()@,
            Err(fault) => if set {
                fault == DecodeFault::DuplicateField(field)
            } else {
                text is None && fault == DecodeFault::InvalidValue(field)
            },
        },
{
    match fresh_text(set, field, text) {
        Ok(text) => Ok(SensitiveString::new(text)),
        Err(fault) => Err(fault),
    }
}

/// The text of a value as the rules see it.
pub open spec fn read_text(text: Option<String>) -> Option<Seq<char>> {
    match text {
        Some(text) => Some(text@),
        None => None,
    }
}

/// The draft after a line with a value of the database section.
fn set_database_value(reading: Reading, field: Field, text: Option<String>) -> (set: Result<
    Reading,
    DecodeFault,
>)
    requires
        reading@.open == Some(Section::Database),
        reading@.consistent(),
        field == Field::ServerUrl || field == Field::ProverUrl,
    ensures
        match set {
            Ok(next) => step_value(reading@, field, read_text(text)) == Ok::<Draft, DecodeFault>(
                next@,
            ),
            Err(fault) => step_value(reading@, field, read_text(text)) == Err::<
                Draft,
                DecodeFault,
            >(fault),
        },
{
    let Reading { open, passing: _, database, l1, consensus } = reading;
    let DatabaseSecrets { server_url, prover_url } = database.unwrap();
    match field {
        Field::ServerUrl => match fresh_url(server_url.is_some(), field, text) {
            Ok(url) => Ok(
                Reading {
                    open,
                    passing: None,
                    database: Some(DatabaseSecrets { server_url: Some(url), prover_url }),
                    l1,
                    consensus,
                },
            ),
            Err(fault) => Err(fault),
        },
        _ => match fresh_url(prover_url.is_some(), field, text) {
            Ok(url) => Ok(
                Reading {
                    open,
                    passing: None,
                    database: Some(DatabaseSecrets { server_url, prover_url: Some(url) }),
                    l1,
                    consensus,
                },
            ),
            Err(fault) => Err(fault),
        },
    }
}

/// The draft after a line with the value of the L1 section.
fn set_l1_value(reading: Reading, text: Option<String>) -> (set: Result<Reading, DecodeFault>)
    requires
        reading@.open == Some(Section::L1),
        reading@.consistent(),
    ensures
        match set {
            Ok(next) => step_value(reading@, Field::L1RpcUrl, read_text(text)) == Ok::<
                Draft,
                DecodeFault,
            >(next@),
            Err(fault) => step_value(reading@, Field::L1RpcUrl, read_text(text)) == Err::<
                Draft,
                DecodeFault,
            >(fault),
        },
{
    let Reading { open, passing: _, database, l1, consensus } = reading;
    match fresh_url(l1.unwrap().is_some(), Field::L1RpcUrl, text) {
        Ok(url) => Ok(Reading { open, passing: None, database, l1: Some(Some(url)), consensus }),
        Err(fault) => Err(fault),
    }
}

/// The draft after a line with a value of the consensus section.
fn set_consensus_value(reading: Reading, field: Field, text: Option<String>) -> (set: Result<
    Reading,
    DecodeFault,
>)
    requires
        reading@.open == Some(Section::Consensus),
        reading@.consistent(),
        field.spec_section() == Section::Consensus,
    ensures
        match set {
            Ok(next) => step_value(reading@, field, read_text(text)) == Ok::<Draft, DecodeFault>(
                next@,
            ),
            Err(fault) => step_value(reading@, field, read_text(text)) == Err::<
                Draft,
                DecodeFault,
            >(fault),
        },
{
    let Reading { open, passing: _, database, l1, consensus } = reading;
    let ConsensusSecrets { validator_key, attester_key, node_key } = consensus.unwrap();
    let consensus = match field {
        Field::ValidatorKey => match fresh_key(validator_key.is_some(), field, text) {
            Ok(key) => ConsensusSecrets {
                validator_key: Some(ValidatorSecretKey(key)),
                attester_key,
                node_key,
            },
            Err(fault) => {
                return Err(fault);
            },
        },
        Field::AttesterKey => match fresh_key(attester_key.is_some(), field, text) {
            Ok(key) => ConsensusSecrets {
                validator_key,
                attester_key: Some(AttesterSecretKey(key)),
                node_key,
            },
            Err(fault) => {
                return Err(fault);
            },
        },
        _ => match fresh_key(node_key.is_some(), field, text) {
            Ok(key) => ConsensusSecrets {
                validator_key,
                attester_key,
                node_key: Some(NodeSecretKey(key)),
            },
            Err(fault) => {
                return Err(fault);
            },
        },
    };
    Ok(Reading { open, passing: None, database, l1, consensus: Some(consensus) })
}

/// The draft after a line with a value of the secrets.
fn set_value(reading: Reading, field: Field, text: Option<String>) -> (set: Result<
    Reading,
    DecodeFault,
>)
    requires
        reading@.consistent(),
    ensures
        match set {
            Ok(next) => next@.consistent() && step_value(reading@, field, read_text(text)) == Ok::<
                Draft,
                DecodeFault,
            >(next@),
            Err(fault) => step_value(reading@, field, read_text(text)) == Err::<
                Draft,
                DecodeFault,
            >(fault),
        },
{
    let section = field.section();
    if !is_open(&reading.open, section) {
        return Err(DecodeFault::MisplacedField(field));
    }
    match section {
        Section::Database => set_database_value(reading, field, text),
        Section::L1 => set_l1_value(reading, text),
        Section::Consensus => set_consensus_value(reading, field, text),
    }
}

/// The draft after a line with a key of another name.
fn pass_key(reading: Reading, indent: usize, reserved: bool) -> (passed: Result<
    Reading,
    DecodeFault,
>)
    requires
        reading@.consistent(),
    ensures
        match passed {
            Ok(next) => next@.consistent() && step_key(reading@, indent as nat, reserved) == Ok::<
                Draft,
                DecodeFault,
            >(next@),
            Err(fault) => step_key(reading@, indent as nat, reserved) == Err::<
                Draft,
                DecodeFault,
            >(fault),
        },
{
    let Reading { open, passing: _, database, l1, consensus } = reading;
    if reserved {
        Err(DecodeFault::Malformed)
    } else if indent == 0 {
        Ok(Reading { open: None, passing: Some(0), database, l1, consensus })
    } else if indent == 2 && open.is_some() {
        Ok(Reading { open, passing: Some(2), database, l1, consensus })
    } else {
        Err(DecodeFault::Malformed)
    }
}

/// Whether the line is indented below a key with another name.
fn passes_over(reading: &Reading, line: &ReadLine) -> (yes: bool)
    ensures
        yes == reading@.passes_over(line@),
{
    let indent: usize = match line {
        ReadLine::Value(_, _) => 2,
        ReadLine::Key { indent, reserved: _ } => *indent,
        ReadLine::Other { indent } => *indent,
        _ => 0,
    };
    match reading.passing {
        Some(base) => indent > base,
        None => false,
    }
}

/// The draft after a line, or what is wrong with the line.
fn apply_line(reading: Reading, line: ReadLine) -> (applied: Result<Reading, DecodeFault>)
    requires
        reading@.consistent(),
    ensures
        match applied {
            Ok(next) => next@.consistent() && step_line(reading@, line@) == Ok::<
                Draft,
                DecodeFault,
            >(next@),
            Err(fault) => step_line(reading@, line@) == Err::<Draft, DecodeFault>(fault),
        },
{
    match line {
        ReadLine::Blank => Ok(reading),
        ReadLine::Comment => Ok(reading),
        line => {
            if passes_over(&reading, &line) {
                return Ok(reading);
            }
            match line {
                ReadLine::Open(section) => begin_section(reading, section, true),
                ReadLine::Empty(section) => begin_section(reading, section, false),
                ReadLine::Value(field, text) => set_value(reading, field, text),
                ReadLine::Key { indent, reserved } => pass_key(reading, indent, reserved),
                _ => Err(DecodeFault::Malformed),
            }
        },
    }
}

/// The secrets that the draft comes to after the last line.
fn finish_reading(reading: Reading, last: usize) -> (finished: Result<SecretsConfig, DecodeError>)
    ensures
        match finished {
            Ok(secrets) => finish(reading@, last as nat) == Ok::<SecretsView, DecodeError>(secrets@),
            Err(error) => finish(reading@, last as nat) == Err::<SecretsView, DecodeError>(error),
        },
{
    let Reading { open: _, passing: _, database, l1, consensus } = reading;
    match l1 {
        Some(None) => Err(
            DecodeError { line: last, fault: DecodeFault::MissingField(Field::L1RpcUrl) },
        ),
        Some(Some(url)) => Ok(
            SecretsConfig { consensus, database, l1: Some(L1Secrets { l1_rpc_url: url }) },
        ),
        None => Ok(SecretsConfig { consensus, database, l1: None }),
    }
}

/// Where the line that begins at `start` ends: at the next line feed, or
/// with the text.
fn line_end(bytes: &[u8], start: usize) -> (end: usize)
    requires
        start <= bytes@.len(),
    ensures
        start <= end <= bytes@.len(),
        forall|i: int| start <= i < end ==> bytes@[i] != LINE_FEED,
        end < bytes@.len() ==> bytes@[end as int] == LINE_FEED,
{
    let mut end = start;
    while end < bytes.len() && bytes[end] != LINE_FEED
        invariant
            start <= end <= bytes@.len(),
            forall|i: int| start <= i < end ==> bytes@[i] != LINE_FEED,
        decreases bytes@.len() - end,
    {
        end += 1;
    }
    end
}

/// Reads the secrets file `bytes`.
///
/// The file is read line by line. A line of the secrets is the header of a
/// section, or a value of the section whose header came last. Each section
/// may begin once and each value may be set once; a URL must parse and is
/// kept in its normal form; an L1 section must hold its URL. A section
/// without header is not there. Blank lines and comments are passed over, and
/// so are sections and values with names that are not known here, with what
/// is indented below them. The first line that does not fit is reported with
/// its number.
pub fn decode(bytes: &[u8]) -> (decoded: Result<SecretsConfig, DecodeError>)
    ensures
        match decoded {
            Ok(secrets) => parse_document(bytes@) == Ok::<SecretsView, DecodeError>(secrets@),
            Err(error) => parse_document(bytes@) == Err::<SecretsView, DecodeError>(error),
        },
{
    let mut reading =
        Reading { open: None, passing: None, database: None, l1: None, consensus: None };
    let mut start: usize = 0;
    let mut number: usize = 0;
    assert(bytes@.skip(0) =~= bytes@);
    loop
        invariant
            number <= start <= bytes@.len(),
            reading@.consistent(),
            parse_from(reading@, bytes@.skip(start as int), number as nat) == parse_document(
                bytes@,
            ),
        decreases bytes@.len() - start,
    {
        let end = line_end(bytes, start);
        let line = slice_subrange(bytes, start, end);
        proof {
            let rest = bytes@.skip(start as int);
            lemma_first_line_at(rest, end - start);
            assert(rest.take(end - start) =~= line@);
            if end < bytes@.len() {
                assert(rest.skip(end - start + 1) =~= bytes@.skip(end + 1));
            }
        }
        match apply_line(reading, classify_line(line)) {
            Ok(next) => {
                reading = next;
            },
            Err(fault) => {
                return Err(DecodeError { line: number, fault });
            },
        }
        if end >= bytes.len() {
            return finish_reading(reading, number);
        }
        start = end + 1;
        number = number + 1;
    }
}

} // verus!
