//! Building TOML documents with `toml_edit`: the trusted operations used to
//! write a manifest, stated over the tables a document holds.

use vstd::prelude::*;

use toml_edit::DocumentMut;

verus! {

#[verifier::external_type_specification]
#[verifier::external_body]
pub struct ExDocumentMut(toml_edit::DocumentMut);

/// The tables a document holds, in order: each table's name and its
/// string entries (key and value), in order.
pub uninterp spec fn document_tables(doc: DocumentMut) -> Seq<(Seq<char>, Seq<(Seq<char>, Seq<char>)>)>;

/// The document holds nothing but what `document_tables` lists, as
/// `DocumentMut::new`, `toml_edit::table()` and string values converted
/// with `From<&str>` make them: standard tables without a position, each
/// with string values only, no decoration, no explicit representation
/// (quoting) of a key or value, no other item.
pub uninterp spec fn document_is_plain(doc: DocumentMut) -> bool;

/// The text `toml_edit` writes for a plain document with these tables.
pub uninterp spec fn toml_document_text(tables: Seq<(Seq<char>, Seq<(Seq<char>, Seq<char>)>)>) -> Seq<char>;

/// The first position of the table `name`, or -1 when there is none.
pub open spec fn table_position(tables: Seq<(Seq<char>, Seq<(Seq<char>, Seq<char>)>)>, name: Seq<char>) -> int
    decreases tables.len(),
{
    if tables.len() == 0 {
        -1
    } else {
        let p = table_position(tables.drop_last(), name);
        if p >= 0 {
            p
        } else if tables.last().0 == name {
            tables.len() - 1
        } else {
            -1
        }
    }
}

/// Adding a table after the others leaves the positions of the others.
pub proof fn lemma_table_position_push(
    tables: Seq<(Seq<char>, Seq<(Seq<char>, Seq<char>)>)>,
    t: (Seq<char>, Seq<(Seq<char>, Seq<char>)>),
    name: Seq<char>,
)
    ensures
        table_position(tables.push(t), name) == (if table_position(tables, name) >= 0 {
            table_position(tables, name)
        } else if t.0 == name {
            tables.len() as int
        } else {
            -1
        }),
{
    assert(tables.push(t).drop_last() =~= tables);
}

/// Changing the entries of a table leaves the positions of all tables.
pub proof fn lemma_table_position_update(
    tables: Seq<(Seq<char>, Seq<(Seq<char>, Seq<char>)>)>,
    i: int,
    entries: Seq<(Seq<char>, Seq<char>)>,
    name: Seq<char>,
)
    requires
        0 <= i < tables.len(),
    ensures
        table_position(tables.update(i, (tables[i].0, entries)), name) == table_position(tables, name),
    decreases tables.len(),
{
    let u = tables.update(i, (tables[i].0, entries));
    if i < tables.len() - 1 {
        lemma_table_position_update(tables.drop_last(), i, entries, name);
        assert(u.drop_last() =~= tables.drop_last().update(i, (tables[i].0, entries)));
    } else {
        assert(u.drop_last() =~= tables.drop_last());
    }
}

/// Whether `key` has an entry in `entries`.
pub open spec fn has_key(entries: Seq<(Seq<char>, Seq<char>)>, key: Seq<char>) -> bool {
    exists|i: int| 0 <= i < entries.len() && (#[trigger] entries[i]).0 == key
}

/// `toml_edit::DocumentMut::new`: an empty, plain document.
#[verifier::external_body]
pub(crate) fn new_document() -> (doc: DocumentMut)
    ensures
        document_is_plain(doc),
        document_tables(doc) == Seq::<(Seq<char>, Seq<(Seq<char>, Seq<char>)>)>::empty(),
{
    DocumentMut::new()
}

/// `doc[name] = toml_edit::table()` on a plain document without a table
/// `name`: the new empty table is added after the others.
#[verifier::external_body]
pub(crate) fn insert_table(doc: &mut DocumentMut, name: &str)
    requires
        document_is_plain(*old(doc)),
        table_position(document_tables(*old(doc)), name@) == -1,
    ensures
        document_is_plain(*final(doc)),
        document_tables(*final(doc)) == document_tables(*old(doc)).push(
            (name@, Seq::<(Seq<char>, Seq<char>)>::empty()),
        ),
{
    doc[name] = toml_edit::table();
}

/// `doc[table][key] = value.into()` on a plain document that has the table
/// `table` without the key `key`: the string entry is added after the
/// others of that table.
#[verifier::external_body]
pub(crate) fn insert_string(doc: &mut DocumentMut, table: &str, key: &str, value: &str)
    requires
        document_is_plain(*old(doc)),
        table_position(document_tables(*old(doc)), table@) >= 0,
        !has_key(
            document_tables(*old(doc))[table_position(document_tables(*old(doc)), table@)].1,
            key@,
        ),
    ensures
        document_is_plain(*final(doc)),
        ({
            let tables = document_tables(*old(doc));
            let p = table_position(tables, table@);
            document_tables(*final(doc)) == tables.update(p, (table@, tables[p].1.push((key@, value@))))
        }),
{
    doc[table][key] = value.into();
}

/// `doc.to_string()` of a plain document: the text `toml_edit` writes for
/// its tables.
#[verifier::external_body]
pub(crate) fn render_document(doc: &DocumentMut) -> (text: String)
    requires
        document_is_plain(*doc),
    ensures
        text@ == toml_document_text(document_tables(*doc)),
{
    doc.to_string()
}

} // verus!
