//! What holds of the secrets file: how a text is read line by line, and
//! that what is written is read as it was.

use crate::codec::format::ascii;
use crate::codec::format::bare;
use crate::codec::format::classify;
use crate::codec::format::empty_header;
use crate::codec::format::field_prefix;
use crate::codec::format::finish;
use crate::codec::format::first_line_len;
use crate::codec::format::first_unwritable;
use crate::codec::format::field_writable;
use crate::codec::format::header;
use crate::codec::format::holds_url;
use crate::codec::format::indent;
use crate::codec::format::name_byte;
use crate::codec::format::name_len;
use crate::codec::format::optional_line;
use crate::codec::format::parse_document;
use crate::codec::format::parse_from;
use crate::codec::format::quotable;
use crate::codec::format::read_value;
use crate::codec::format::render;
use crate::codec::format::render_consensus;
use crate::codec::format::render_database;
use crate::codec::format::render_l1;
use crate::codec::format::step;
use crate::codec::format::text_of;
use crate::codec::format::urls_normal;
use crate::codec::format::value_line;
use crate::codec::format::value_of;
use crate::codec::format::writable;
use crate::codec::format::write_value;
use crate::codec::format::DecodeError;
use crate::codec::format::Draft;
use crate::codec::format::Line;
use crate::codec::format::COLON;
use crate::codec::format::HASH;
use crate::codec::format::LINE_FEED;
use crate::codec::format::QUOTE;
use crate::codec::format::SPACE;
use crate::secrets::ConsensusView;
use crate::secrets::DatabaseView;
use crate::secrets::Field;
use crate::secrets::SecretsView;
use crate::secrets::Section;
use crate::sensitive::parsed_url_text;
use vstd::prelude::*;

verus! {

/// The first line of a text ends before its first line feed, or with the
/// text.
pub proof fn lemma_first_line(text: Seq<u8>)
    ensures
        first_line_len(text) <= text.len(),
        forall|i: int| 0 <= i < first_line_len(text) ==> text[i] != LINE_FEED,
        first_line_len(text) < text.len() ==> text[first_line_len(text) as int] == LINE_FEED,
    decreases text.len(),
{
    if text.len() == 0 || text[0] == LINE_FEED {
    } else {
        let rest = text.skip(1);
        lemma_first_line(rest);
        assert forall|i: int| 0 <= i < first_line_len(text) implies text[i] != LINE_FEED by {
            if i > 0 {
                assert(rest[i - 1] == text[i]);
            }
        }
        if first_line_len(text) < text.len() {
            assert(rest[first_line_len(rest) as int] == text[first_line_len(text) as int]);
        }
    }
}

/// A position at which a line feed stands, with none before it, is where the
/// first line ends; so is the end of a text without line feed.
pub proof fn lemma_first_line_at(text: Seq<u8>, end: int)
    requires
        0 <= end <= text.len(),
        forall|i: int| 0 <= i < end ==> text[i] != LINE_FEED,
        end < text.len() ==> text[end] == LINE_FEED,
    ensures
        first_line_len(text) == end,
{
    lemma_first_line(text);
    let len = first_line_len(text) as int;
    if len < end {
        assert(text[len] == LINE_FEED);
    }
}

/// Reading a line and the text after it is reading the text after the step
/// that the line makes.
pub proof fn lemma_feed_line(draft: Draft, line: Seq<u8>, more: Seq<u8>, number: nat)
    requires
        forall|i: int| 0 <= i < line.len() ==> line[i] != LINE_FEED,
    ensures
        parse_from(draft, line.push(LINE_FEED) + more, number) == match step(
            draft,
            classify(line),
            number,
        ) {
            Err(error) => Err(error),
            Ok(next) => parse_from(next, more, number + 1),
        },
{
    let text = line.push(LINE_FEED) + more;
    let len = line.len() as int;
    assert(text[len] == LINE_FEED);
    assert forall|i: int| 0 <= i < len implies text[i] != LINE_FEED by {
        assert(text[i] == line[i]);
    }
    lemma_first_line_at(text, len);
    assert(text.take(len) =~= line);
    assert(text.skip(len + 1) =~= more);
}

/// After the last line feed there is one more line, which is blank.
pub proof fn lemma_feed_end(draft: Draft, number: nat)
    ensures
        parse_from(draft, Seq::empty(), number) == finish(draft, number),
{
    let text = Seq::<u8>::empty();
    assert(text.take(0) =~= text);
}

/// A line that holds spaces up to a place where none stands, or up to its
/// end, is indented so far.
pub proof fn lemma_indent_at(line: Seq<u8>, spaces: int)
    requires
        0 <= spaces <= line.len(),
        forall|i: int| 0 <= i < spaces ==> line[i] == SPACE,
        spaces < line.len() ==> line[spaces] != SPACE,
    ensures
        indent(line) == spaces,
    decreases spaces,
{
    if spaces > 0 {
        let rest = line.skip(1);
        assert forall|i: int| 0 <= i < spaces - 1 implies rest[i] == SPACE by {
            assert(rest[i] == line[i + 1]);
        }
        if spaces - 1 < rest.len() {
            assert(rest[spaces - 1] == line[spaces]);
        }
        lemma_indent_at(rest, spaces - 1);
    }
}

/// A text that holds name bytes up to a place where none stands, or up to
/// its end, begins with a name of that length.
pub proof fn lemma_name_len_at(text: Seq<u8>, len: int)
    requires
        0 <= len <= text.len(),
        forall|i: int| 0 <= i < len ==> name_byte(#[trigger] text[i]),
        len < text.len() ==> !name_byte(text[len]),
    ensures
        name_len(text) == len,
    decreases len,
{
    if len > 0 {
        let rest = text.skip(1);
        assert(name_byte(text[0]));
        assert forall|i: int| 0 <= i < len - 1 implies name_byte(#[trigger] rest[i]) by {
            assert(rest[i] == text[i + 1]);
            assert(name_byte(text[i + 1]));
        }
        if len - 1 < rest.len() {
            assert(rest[len - 1] == text[len]);
        }
        lemma_name_len_at(rest, len - 1);
    }
}

/// The first letter of the name of a section.
pub open spec fn section_initial(section: Section) -> u8 {
    match section {
        Section::Database => 100,
        Section::L1 => 108,
        Section::Consensus => 99,
    }
}

/// The first letter of the name of a field.
pub open spec fn field_initial(field: Field) -> u8 {
    match field {
        Field::ServerUrl => 115,
        Field::ProverUrl => 112,
        Field::L1RpcUrl => 108,
        Field::ValidatorKey => 118,
        Field::AttesterKey => 97,
        Field::NodeKey => 110,
    }
}

/// The byte is a small letter, a digit or an underscore.
pub open spec fn word_byte(byte: u8) -> bool {
    97 <= byte <= 122 || 48 <= byte <= 57 || byte == 95
}

/// What the names of the sections are made of.
pub proof fn lemma_section_names(section: Section)
    ensures
        ascii(section.spec_name()).len() >= 2,
        ascii(section.spec_name())[0] == section_initial(section),
        forall|i: int|
            0 <= i < ascii(section.spec_name()).len() ==> word_byte(
                #[trigger] ascii(section.spec_name())[i],
            ),
{
    reveal_strlit("database");
    reveal_strlit("l1");
    reveal_strlit("consensus");
}

/// What the names of the fields are made of.
pub proof fn lemma_field_names(field: Field)
    ensures
        ascii(field.spec_name()).len() >= 8,
        ascii(field.spec_name())[0] == field_initial(field),
        forall|i: int|
            0 <= i < ascii(field.spec_name()).len() ==> word_byte(
                #[trigger] ascii(field.spec_name())[i],
            ),
{
    reveal_strlit("server_url");
    reveal_strlit("prover_url");
    reveal_strlit("l1_rpc_url");
    reveal_strlit("validator_key");
    reveal_strlit("attester_key");
    reveal_strlit("node_key");
}

/// What the header of a section is made of.
pub proof fn lemma_header_shape(section: Section)
    ensures
        header(section).len() >= 3,
        header(section)[0] == section_initial(section),
        header(section).last() == COLON,
        empty_header(section).len() == header(section).len() + 3,
        empty_header(section)[0] == section_initial(section),
        empty_header(section).last() == 125,
        indent(header(section)) == 0,
        indent(empty_header(section)) == 0,
        forall|i: int| 0 <= i < header(section).len() ==> #[trigger] header(section)[i] != LINE_FEED,
        forall|i: int|
            0 <= i < empty_header(section).len() ==> #[trigger] empty_header(section)[i]
                != LINE_FEED,
{
    lemma_section_names(section);
    reveal_strlit(" {}");
    let name = ascii(section.spec_name());
    assert forall|i: int| 0 <= i < header(section).len() implies #[trigger] header(section)[i]
        != LINE_FEED by {
        if i < name.len() {
            assert(word_byte(name[i]));
        }
    }
    assert forall|i: int| 0 <= i < empty_header(section).len() implies #[trigger] empty_header(
        section,
    )[i] != LINE_FEED by {
        if i < header(section).len() {
            assert(empty_header(section)[i] == header(section)[i]);
        }
    }
}

/// What stands before a value is made of.
pub proof fn lemma_prefix_shape(field: Field)
    ensures
        field_prefix(field).len() >= 12,
        field_prefix(field)[0] == 32,
        field_prefix(field)[1] == 32,
        field_prefix(field)[2] == field_initial(field),
        forall|i: int|
            0 <= i < field_prefix(field).len() ==> #[trigger] field_prefix(field)[i] != LINE_FEED,
{
    lemma_field_names(field);
    reveal_strlit("  ");
    reveal_strlit(": ");
    let name = ascii(field.spec_name());
    assert forall|i: int| 0 <= i < field_prefix(field).len() implies #[trigger] field_prefix(
        field,
    )[i] != LINE_FEED by {
        if 2 <= i < 2 + name.len() {
            assert(word_byte(name[i - 2]));
        }
    }
}

/// The header of a section is read as the beginning of that section.
pub proof fn lemma_classify_header(section: Section)
    ensures
        classify(header(section)) == Line::Open(section),
{
    lemma_header_shape(Section::Database);
    lemma_header_shape(Section::L1);
    lemma_header_shape(Section::Consensus);
}

/// The header of an empty section is read as that section, empty.
pub proof fn lemma_classify_empty(section: Section)
    ensures
        classify(empty_header(section)) == Line::Empty(section),
{
    lemma_header_shape(Section::Database);
    lemma_header_shape(Section::L1);
    lemma_header_shape(Section::Consensus);
}

/// A written value is read as the text that was written.
pub proof fn lemma_read_written(text: Seq<char>)
    requires
        writable(text),
    ensures
        read_value(write_value(text)) == Some(text),
        forall|i: int|
            0 <= i < write_value(text).len() ==> #[trigger] write_value(text)[i] != LINE_FEED,
{
    let raw = write_value(text);
    assert(raw.len() == text.len() + 2);
    assert(raw[0] == QUOTE);
    assert(raw.last() == QUOTE);
    assert forall|i: int| 1 <= i < raw.len() - 1 implies quotable(#[trigger] raw[i]) by {
        assert(raw[i] == text[i - 1] as u8);
    }
    let inner = raw.subrange(1, raw.len() - 1);
    assert(inner =~= ascii(text));
    assert forall|i: int| 0 <= i < text.len() implies text_of(inner)[i] == text[i] by {
        assert(' ' <= text[i] <= '~');
        assert(inner[i] == ascii(text)[i]);
        assert(ascii(text)[i] == text[i] as u8);
        assert(text_of(inner)[i] == inner[i] as char);
    }
    assert(text_of(inner) =~= text);
    assert forall|i: int| 0 <= i < raw.len() implies #[trigger] raw[i] != LINE_FEED by {
        if 1 <= i < raw.len() - 1 {
            assert(quotable(raw[i]));
        }
    }
}

/// A line that begins with a space is no header.
proof fn lemma_indented_is_no_header(line: Seq<u8>, section: Section)
    requires
        line.len() > 0,
        line[0] == 32,
    ensures
        line != header(section),
        line != empty_header(section),
{
    lemma_header_shape(section);
}

/// What stands before the value of one field does not begin the line of
/// another.
proof fn lemma_prefix_of_other_field(line: Seq<u8>, field: Field, other: Field)
    requires
        line.len() > 2,
        line[2] == field_initial(field),
        other != field,
    ensures
        !field_prefix(other).is_prefix_of(line),
{
    lemma_prefix_shape(other);
    if field_prefix(other).is_prefix_of(line) {
        assert(line.subrange(0, field_prefix(other).len() as int)[2] == field_prefix(other)[2]);
    }
}

/// The line of a field begins with what stands before its value, and with
/// that of no other field.
proof fn lemma_field_line_prefixes(field: Field, raw: Seq<u8>)
    ensures
        (field_prefix(field) + raw).len() > 2,
        (field_prefix(field) + raw)[0] == 32,
        indent(field_prefix(field) + raw) == 2,
        (field_prefix(field) + raw)[2] != HASH,
        field_prefix(field).is_prefix_of(field_prefix(field) + raw),
        (field_prefix(field) + raw).skip(field_prefix(field).len() as int) == raw,
        forall|other: Field|
            other != field ==> !(#[trigger] field_prefix(other)).is_prefix_of(
                field_prefix(field) + raw,
            ),
{
    let line = field_prefix(field) + raw;
    lemma_prefix_shape(field);
    assert(line[0] == field_prefix(field)[0]);
    assert(line[1] == field_prefix(field)[1]);
    assert(line[2] == field_prefix(field)[2]);
    lemma_indent_at(line, 2);
    assert(line.subrange(0, field_prefix(field).len() as int) =~= field_prefix(field));
    assert(line.skip(field_prefix(field).len() as int) =~= raw);
    assert forall|other: Field| other != field implies !(#[trigger] field_prefix(other)).is_prefix_of(
        line,
    ) by {
        lemma_prefix_of_other_field(line, field, other);
    }
}

/// A value that is read can be written.
pub proof fn lemma_read_is_writable(raw: Seq<u8>)
    requires
        read_value(raw) is Some,
    ensures
        writable(read_value(raw).unwrap()),
{
    let text = read_value(raw).unwrap();
    assert forall|i: int| 0 <= i < text.len() implies ' ' <= (#[trigger] text[i]) <= '~' && text[i]
        != '"' && text[i] != '\\' by {
        if text.len() == raw.len() {
            assert(bare(raw[i]));
            assert(text[i] == raw[i] as char);
        } else {
            assert(quotable(raw[i + 1]));
            assert(text[i] == raw.subrange(1, raw.len() - 1)[i] as char);
        }
    }
}

/// The line of a field is read as the value of that field.
pub proof fn lemma_classify_field(field: Field, text: Seq<char>)
    requires
        writable(text),
    ensures
        classify(field_prefix(field) + write_value(text)) == Line::Value(field, Some(text)),
        forall|i: int|
            0 <= i < (field_prefix(field) + write_value(text)).len() ==> #[trigger] (field_prefix(
                field,
            ) + write_value(text))[i] != LINE_FEED,
{
    let line = field_prefix(field) + write_value(text);
    lemma_field_line_prefixes(field, write_value(text));
    lemma_indented_is_no_header(line, Section::Database);
    lemma_indented_is_no_header(line, Section::L1);
    lemma_indented_is_no_header(line, Section::Consensus);
    lemma_read_written(text);
    assert(classify(line) == value_line(field, write_value(text)));
    assert forall|i: int| 0 <= i < line.len() implies #[trigger] line[i] != LINE_FEED by {
        lemma_prefix_shape(field);
        if i >= field_prefix(field).len() {
            assert(line[i] == write_value(text)[i - field_prefix(field).len()]);
        } else {
            assert(line[i] == field_prefix(field)[i]);
        }
    }
}

/// The text can be written and, where the field holds a URL, is one in
/// normal form.
pub open spec fn fits(field: Field, text: Option<Seq<char>>) -> bool {
    match text {
        Some(text) => writable(text) && (holds_url(field) ==> parsed_url_text(text) == Some(text)),
        None => true,
    }
}

/// Reading the line of a value that may be set, in its section and for the
/// first time, sets the value where there is one.
proof fn lemma_feed_optional(
    draft: Draft,
    field: Field,
    text: Option<Seq<char>>,
    more: Seq<u8>,
    number: nat,
) -> (next: (Draft, nat))
    requires
        draft.open == Some(field.spec_section()),
        draft.passing is None,
        draft.get(field) is None,
        fits(field, text),
    ensures
        next.0 == match text {
            Some(text) => draft.set(field, text),
            None => draft,
        },
        parse_from(draft, optional_line(field, text) + more, number) == parse_from(
            next.0,
            more,
            next.1,
        ),
{
    match text {
        Some(text) => {
            lemma_classify_field(field, text);
            lemma_feed_line(draft, field_prefix(field) + write_value(text), more, number);
            (draft.set(field, text), number + 1)
        },
        None => {
            assert(optional_line(field, text) + more =~= more);
            (draft, number)
        },
    }
}

/// Reading the lines of a database section that has not begun gives that
/// section.
proof fn lemma_feed_database(
    draft: Draft,
    database: Option<DatabaseView>,
    more: Seq<u8>,
    number: nat,
) -> (next: (Draft, nat))
    requires
        draft.database is None,
        database is Some ==> fits(Field::ServerUrl, database.unwrap().server_url) && fits(
            Field::ProverUrl,
            database.unwrap().prover_url,
        ),
    ensures
        next.0.database == database,
        next.0.l1 == draft.l1,
        next.0.consensus == draft.consensus,
        parse_from(draft, render_database(database) + more, number) == parse_from(
            next.0,
            more,
            next.1,
        ),
{
    match database {
        None => {
            assert(render_database(database) + more =~= more);
            (draft, number)
        },
        Some(view) => {
            let server = optional_line(Field::ServerUrl, view.server_url);
            let prover = optional_line(Field::ProverUrl, view.prover_url);
            lemma_header_shape(Section::Database);
            if (server + prover).len() == 0 {
                lemma_classify_empty(Section::Database);
                lemma_feed_line(draft, empty_header(Section::Database), more, number);
                (draft.begin(Section::Database, false), number + 1)
            } else {
                lemma_classify_header(Section::Database);
                assert(render_database(database) + more =~= header(Section::Database).push(
                    LINE_FEED,
                ) + (server + (prover + more)));
                lemma_feed_line(draft, header(Section::Database), server + (prover + more), number);
                let begun = draft.begin(Section::Database, true);
                let first = lemma_feed_optional(
                    begun,
                    Field::ServerUrl,
                    view.server_url,
                    prover + more,
                    number + 1,
                );
                let second = lemma_feed_optional(
                    first.0,
                    Field::ProverUrl,
                    view.prover_url,
                    more,
                    first.1,
                );
                second
            }
        },
    }
}

/// Reading the lines of an L1 section that has not begun gives that section.
proof fn lemma_feed_l1(draft: Draft, l1: Option<Seq<char>>, more: Seq<u8>, number: nat) -> (next: (
    Draft,
    nat,
))
    requires
        draft.l1 is None,
        fits(Field::L1RpcUrl, l1),
    ensures
        next.0.database == draft.database,
        next.0.l1 == match l1 {
            Some(url) => Some(Some(url)),
            None => None,
        },
        next.0.consensus == draft.consensus,
        parse_from(draft, render_l1(l1) + more, number) == parse_from(next.0, more, next.1),
{
    match l1 {
        None => {
            assert(render_l1(l1) + more =~= more);
            (draft, number)
        },
        Some(url) => {
            let line = optional_line(Field::L1RpcUrl, l1);
            lemma_header_shape(Section::L1);
            lemma_classify_header(Section::L1);
            assert(render_l1(l1) + more =~= header(Section::L1).push(LINE_FEED) + (line + more));
            lemma_feed_line(draft, header(Section::L1), line + more, number);
            lemma_feed_optional(
                draft.begin(Section::L1, true),
                Field::L1RpcUrl,
                l1,
                more,
                number + 1,
            )
        },
    }
}

/// Reading the lines of a consensus section that has not begun gives that
/// section.
proof fn lemma_feed_consensus(
    draft: Draft,
    consensus: Option<ConsensusView>,
    more: Seq<u8>,
    number: nat,
) -> (next: (Draft, nat))
    requires
        draft.consensus is None,
        consensus is Some ==> fits(Field::ValidatorKey, consensus.unwrap().validator_key) && fits(
            Field::AttesterKey,
            consensus.unwrap().attester_key,
        ) && fits(Field::NodeKey, consensus.unwrap().node_key),
    ensures
        next.0.database == draft.database,
        next.0.l1 == draft.l1,
        next.0.consensus == consensus,
        parse_from(draft, render_consensus(consensus) + more, number) == parse_from(
            next.0,
            more,
            next.1,
        ),
{
    match consensus {
        None => {
            assert(render_consensus(consensus) + more =~= more);
            (draft, number)
        },
        Some(view) => {
            let validator = optional_line(Field::ValidatorKey, view.validator_key);
            let attester = optional_line(Field::AttesterKey, view.attester_key);
            let node = optional_line(Field::NodeKey, view.node_key);
            lemma_header_shape(Section::Consensus);
            if (validator + attester + node).len() == 0 {
                lemma_classify_empty(Section::Consensus);
                lemma_feed_line(draft, empty_header(Section::Consensus), more, number);
                (draft.begin(Section::Consensus, false), number + 1)
            } else {
                lemma_classify_header(Section::Consensus);
                assert(render_consensus(consensus) + more =~= header(Section::Consensus).push(
                    LINE_FEED,
                ) + (validator + (attester + (node + more))));
                lemma_feed_line(
                    draft,
                    header(Section::Consensus),
                    validator + (attester + (node + more)),
                    number,
                );
                let begun = draft.begin(Section::Consensus, true);
                let first = lemma_feed_optional(
                    begun,
                    Field::ValidatorKey,
                    view.validator_key,
                    attester + (node + more),
                    number + 1,
                );
                let second = lemma_feed_optional(
                    first.0,
                    Field::AttesterKey,
                    view.attester_key,
                    node + more,
                    first.1,
                );
                let third = lemma_feed_optional(
                    second.0,
                    Field::NodeKey,
                    view.node_key,
                    more,
                    second.1,
                );
                third
            }
        },
    }
}

/// Reading what was written gives what was there: for secrets of which every
/// value can be written, the file that is written for them is read as the
/// same secrets, with the same sections there and the same values set.
pub proof fn lemma_decode_inverts_encode(secrets: SecretsView)
    requires
        first_unwritable(secrets) is None,
        urls_normal(secrets),
    ensures
        parse_document(render(secrets)) == Ok::<SecretsView, DecodeError>(secrets),
{
    assert(field_writable(secrets, Field::ServerUrl));
    assert(field_writable(secrets, Field::ProverUrl));
    assert(field_writable(secrets, Field::L1RpcUrl));
    assert(field_writable(secrets, Field::ValidatorKey));
    assert(field_writable(secrets, Field::AttesterKey));
    assert(field_writable(secrets, Field::NodeKey));
    assert(fits(Field::ServerUrl, value_of(secrets, Field::ServerUrl)));
    assert(fits(Field::ProverUrl, value_of(secrets, Field::ProverUrl)));
    assert(fits(Field::L1RpcUrl, value_of(secrets, Field::L1RpcUrl)));
    let l1 = render_l1(secrets.l1);
    let consensus = render_consensus(secrets.consensus);
    assert(render(secrets) =~= render_database(secrets.database) + (l1 + consensus));
    let first = lemma_feed_database(Draft::empty(), secrets.database, l1 + consensus, 0);
    let second = lemma_feed_l1(first.0, secrets.l1, consensus, first.1);
    let third = lemma_feed_consensus(second.0, secrets.consensus, Seq::empty(), second.1);
    assert(consensus + Seq::<u8>::empty() =~= consensus);
    lemma_feed_end(third.0, third.1);
}

} // verus!
