//! Writing the secrets file.

use crate::codec::format::ascii;
use crate::codec::format::empty_header;
use crate::codec::format::field_line;
use crate::codec::format::first_unwritable;
use crate::codec::format::header;
use crate::codec::format::optional_line;
use crate::codec::format::render;
use crate::codec::format::urls_normal;
use crate::codec::format::value_of;
use crate::codec::format::writable;
use crate::codec::format::COLON;
use crate::codec::format::LINE_FEED;
use crate::codec::format::QUOTE;
use crate::codec::format::holds_url;
use crate::codec::format::render_consensus;
use crate::codec::format::render_database;
use crate::codec::format::render_l1;
use crate::secrets::url_view;
use crate::secrets::ConsensusSecrets;
use crate::secrets::DatabaseSecrets;
use crate::secrets::Field;
use crate::secrets::L1Secrets;
use crate::secrets::SecretsConfig;
use crate::secrets::SecretsView;
use crate::secrets::Section;
use crate::sensitive::expose_url_str;
use crate::sensitive::parsed_url_text;
use crate::sensitive::url_text;
use zksync_basic_types::url::SensitiveUrl;
use vstd::prelude::*;
use vstd::string::is_ascii;
use vstd::string::is_ascii_spec_bytes;

verus! {

/// A value among the secrets cannot be written to the file: it holds a
/// character that may not stand between quotes.
#[derive(Debug, Clone, Copy, PartialEq, Eq)]
pub struct SchemaViolation {
    pub field: Field,
}

/// Whether `text` can be written as a value.
pub fn is_writable(text: &str) -> (ok: bool)
    ensures
        ok == writable(text@),
{
    if !text.is_ascii() {
        return false;
    }
    let bytes = text.as_bytes();
    proof {
        is_ascii_spec_bytes(text);
    }
    let mut i: usize = 0;
    while i < bytes.len()
        invariant
            i <= bytes@.len(),
            bytes@.len() == text@.len(),
            is_ascii(text),
            forall|j: int| 0 <= j < bytes@.len() ==> bytes@[j] == (#[trigger] text@[j]) as u8,
            writable(text@.take(i as int)),
        decreases bytes@.len() - i,
    {
        let byte = bytes[i];
        if byte < 32 || byte > 126 || byte == 34 || byte == 92 {
            assert(byte == text@[i as int] as u8);
            return false;
        }
        proof {
            let before = text@.take(i as int);
            let upto = text@.take(i + 1);
            assert forall|j: int| 0 <= j < upto.len() implies ' ' <= (#[trigger] upto[j]) <= '~'
                && upto[j] != '"' && upto[j] != '\\' by {
                if j < i {
                    assert(before[j] == upto[j]);
                } else {
                    assert(upto[j] == text@[i as int]);
                }
            }
        }
        i += 1;
    }
    assert(text@.take(i as int) =~= text@);
    true
}

/// Appends the bytes of `word`.
fn push_word(out: &mut Vec<u8>, word: &str)
    requires
        is_ascii(word),
    ensures
        final(out)@ == old(out)@ + ascii(word@),
{
    let bytes = word.as_bytes();
    proof {
        is_ascii_spec_bytes(word);
    }
    assert(bytes@ =~= ascii(word@));
    let mut i: usize = 0;
    while i < bytes.len()
        invariant
            i <= bytes@.len(),
            out@ == old(out)@ + bytes@.take(i as int),
        decreases bytes@.len() - i,
    {
        out.push(bytes[i]);
        assert(bytes@.take(i + 1) =~= bytes@.take(i as int).push(bytes@[i as int]));
        i += 1;
    }
    assert(bytes@.take(i as int) =~= bytes@);
}

/// Appends the header of `section`, or that of the empty section, as a
/// line.
fn push_header(out: &mut Vec<u8>, section: Section, empty: bool)
    ensures
        final(out)@ == old(out)@ + if empty {
            empty_header(section).push(LINE_FEED)
        } else {
            header(section).push(LINE_FEED)
        },
{
    push_word(out, section.name());
    out.push(COLON);
    if empty {
        proof {
            reveal_strlit(" {}");
        }
        push_word(out, " {}");
    }
    out.push(LINE_FEED);
    assert(out@ =~= old(out)@ + if empty {
        empty_header(section).push(LINE_FEED)
    } else {
        header(section).push(LINE_FEED)
    });
}

/// Appends the line of `field` where `text` is set.
fn push_field(out: &mut Vec<u8>, field: Field, text: Option<&str>)
    requires
        text is Some ==> writable(text.unwrap()@),
    ensures
        final(out)@ == old(out)@ + optional_line(
            field,
            match text {
                Some(text) => Some(text@),
                None => None,
            },
        ),
{
    match text {
        Some(text) => {
            proof {
                reveal_strlit("  ");
                reveal_strlit(": ");
                assert forall|i: int| 0 <= i < text@.len() implies '\0' <= #[trigger] text@[i]
                    <= '\u{7f}' by {
                    assert(' ' <= text@[i] <= '~');
                }
            }
            push_word(out, "  ");
            push_word(out, field.name());
            push_word(out, ": ");
            out.push(QUOTE);
            push_word(out, text);
            out.push(QUOTE);
            out.push(LINE_FEED);
            assert(out@ =~= old(out)@ + field_line(field, text@));
        },
        None => {
            assert(out@ =~= old(out)@ + Seq::<u8>::empty());
        },
    }
}

/// The text of a value that may be set.
pub open spec fn text_view(text: Option<&str>) -> Option<Seq<char>> {
    match text {
        Some(text) => Some(text@),
        None => None,
    }
}

/// The value is set and cannot be written.
pub open spec fn unwritable(text: Option<Seq<char>>) -> bool {
    match text {
        Some(text) => !writable(text),
        None => false,
    }
}

/// The value is no URL in normal form, though it is set.
pub open spec fn abnormal(text: Option<Seq<char>>) -> bool {
    match text {
        Some(text) => parsed_url_text(text) != Some(text),
        None => false,
    }
}

/// Whether the value can be written, or is not set.
fn fits(text: Option<&str>) -> (ok: bool)
    ensures
        ok == !unwritable(text_view(text)),
{
    match text {
        Some(text) => is_writable(text),
        None => true,
    }
}

/// The text of a URL that may be set.
fn url_str(url: &Option<SensitiveUrl>) -> (text: Option<&str>)
    ensures
        text_view(text) == url_view(*url),
        !abnormal(url_view(*url)),
{
    match url {
        Some(url) => Some(expose_url_str(url)),
        None => None,
    }
}

/// Appends the lines of the database section, unless one of its values
/// cannot be written.
fn write_database(out: &mut Vec<u8>, database: &DatabaseSecrets) -> (done: Result<
    (),
    SchemaViolation,
>)
    ensures
        !abnormal(database@.server_url),
        !abnormal(database@.prover_url),
        match done {
            Ok(()) => {
                &&& !unwritable(database@.server_url)
                &&& !unwritable(database@.prover_url)
                &&& final(out)@ == old(out)@ + render_database(Some(database@))
            },
            Err(violation) => if unwritable(database@.server_url) {
                violation.field == Field::ServerUrl
            } else {
                violation.field == Field::ProverUrl && unwritable(database@.prover_url)
            },
        },
{
    let server = url_str(&database.server_url);
    let prover = url_str(&database.prover_url);
    if !fits(server) {
        return Err(SchemaViolation { field: Field::ServerUrl });
    }
    if !fits(prover) {
        return Err(SchemaViolation { field: Field::ProverUrl });
    }
    push_header(out, Section::Database, server.is_none() && prover.is_none());
    push_field(out, Field::ServerUrl, server);
    push_field(out, Field::ProverUrl, prover);
    assert(final(out)@ =~= old(out)@ + render_database(Some(database@)));
    Ok(())
}

/// Appends the lines of the L1 section, unless its URL cannot be written.
fn write_l1(out: &mut Vec<u8>, l1: &L1Secrets) -> (done: Result<(), SchemaViolation>)
    ensures
        !abnormal(Some(url_text(l1.l1_rpc_url))),
        match done {
            Ok(()) => {
                &&& writable(url_text(l1.l1_rpc_url))
                &&& final(out)@ == old(out)@ + render_l1(Some(url_text(l1.l1_rpc_url)))
            },
            Err(violation) => violation.field == Field::L1RpcUrl && !writable(
                url_text(l1.l1_rpc_url),
            ),
        },
{
    let url = Some(expose_url_str(&l1.l1_rpc_url));
    if !fits(url) {
        return Err(SchemaViolation { field: Field::L1RpcUrl });
    }
    push_header(out, Section::L1, false);
    push_field(out, Field::L1RpcUrl, url);
    assert(final(out)@ =~= old(out)@ + render_l1(Some(url_text(l1.l1_rpc_url))));
    Ok(())
}

/// Appends the lines of the consensus section, unless one of its values
/// cannot be written.
fn write_consensus(out: &mut Vec<u8>, consensus: &ConsensusSecrets) -> (done: Result<
    (),
    SchemaViolation,
>)
    ensures
        match done {
            Ok(()) => {
                &&& !unwritable(consensus@.validator_key)
                &&& !unwritable(consensus@.attester_key)
                &&& !unwritable(consensus@.node_key)
                &&& final(out)@ == old(out)@ + render_consensus(Some(consensus@))
            },
            Err(violation) => if unwritable(consensus@.validator_key) {
                violation.field == Field::ValidatorKey
            } else if unwritable(consensus@.attester_key) {
                violation.field == Field::AttesterKey
            } else {
                violation.field == Field::NodeKey && unwritable(consensus@.node_key)
            },
        },
{
    let validator: Option<&str> = match &consensus.validator_key {
        Some(key) => Some(key.0.expose().as_str()),
        None => None,
    };
    let attester: Option<&str> = match &consensus.attester_key {
        Some(key) => Some(key.0.expose().as_str()),
        None => None,
    };
    let node: Option<&str> = match &consensus.node_key {
        Some(key) => Some(key.0.expose().as_str()),
        None => None,
    };
    if !fits(validator) {
        return Err(SchemaViolation { field: Field::ValidatorKey });
    }
    if !fits(attester) {
        return Err(SchemaViolation { field: Field::AttesterKey });
    }
    if !fits(node) {
        return Err(SchemaViolation { field: Field::NodeKey });
    }
    push_header(
        out,
        Section::Consensus,
        validator.is_none() && attester.is_none() && node.is_none(),
    );
    push_field(out, Field::ValidatorKey, validator);
    push_field(out, Field::AttesterKey, attester);
    push_field(out, Field::NodeKey, node);
    assert(final(out)@ =~= old(out)@ + render_consensus(Some(consensus@)));
    Ok(())
}

/// The file of `secrets`: a section for each that is there, in the order
/// database, L1, consensus, and below its header a line for each value that
/// is set. A value that cannot be written is reported, the first in the order
/// of the file; nothing is left out silently.
pub fn encode(secrets: &SecretsConfig) -> (encoded: Result<Vec<u8>, SchemaViolation>)
    ensures
        match encoded {
            Ok(bytes) => {
                &&& first_unwritable(secrets@) is None
                &&& urls_normal(secrets@)
                &&& bytes@ == render(secrets@)
            },
            Err(violation) => first_unwritable(secrets@) == Some(violation.field),
        },
{
    let mut out: Vec<u8> = Vec::new();
    proof {
        lemma_first_unwritable(secrets@);
    }
    if let Some(database) = &secrets.database {
        if let Err(violation) = write_database(&mut out, database) {
            return Err(violation);
        }
    }
    let ghost after_database = out@;
    assert(after_database =~= render_database(secrets@.database));
    if let Some(l1) = &secrets.l1 {
        if let Err(violation) = write_l1(&mut out, l1) {
            return Err(violation);
        }
    }
    let ghost after_l1 = out@;
    assert(after_l1 =~= after_database + render_l1(secrets@.l1));
    if let Some(consensus) = &secrets.consensus {
        if let Err(violation) = write_consensus(&mut out, consensus) {
            return Err(violation);
        }
    }
    assert(out@ =~= after_l1 + render_consensus(secrets@.consensus));
    proof {
        lemma_urls_normal(secrets@);
    }
    Ok(out)
}

/// The URLs are in normal form where none of them is not.
proof fn lemma_urls_normal(secrets: SecretsView)
    requires
        !abnormal(value_of(secrets, Field::ServerUrl)),
        !abnormal(value_of(secrets, Field::ProverUrl)),
        !abnormal(value_of(secrets, Field::L1RpcUrl)),
    ensures
        urls_normal(secrets),
{
    assert forall|field: Field| holds_url(field) implies match #[trigger] value_of(secrets, field) {
        Some(text) => parsed_url_text(text) == Some(text),
        None => true,
    } by {
        match field {
            Field::ServerUrl => {},
            Field::ProverUrl => {},
            Field::L1RpcUrl => {},
            _ => {},
        }
    }
}

/// The first value that cannot be written, told from the values one by one.
proof fn lemma_first_unwritable(secrets: SecretsView)
    ensures
        first_unwritable(secrets) == if unwritable(value_of(secrets, Field::ServerUrl)) {
            Some(Field::ServerUrl)
        } else if unwritable(value_of(secrets, Field::ProverUrl)) {
            Some(Field::ProverUrl)
        } else if unwritable(value_of(secrets, Field::L1RpcUrl)) {
            Some(Field::L1RpcUrl)
        } else if unwritable(value_of(secrets, Field::ValidatorKey)) {
            Some(Field::ValidatorKey)
        } else if unwritable(value_of(secrets, Field::AttesterKey)) {
            Some(Field::AttesterKey)
        } else if unwritable(value_of(secrets, Field::NodeKey)) {
            Some(Field::NodeKey)
        } else {
            None
        },
{
}

} // verus!
