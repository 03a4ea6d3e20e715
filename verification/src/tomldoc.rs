//! TOML documents that are edited in place.
use toml_edit::DocumentMut;
use vstd::prelude::*;

verus! {

/// `toml_edit::DocumentMut`, a document that keeps its formatting.
#[verifier::external_type_specification]
#[verifier::external_body]
pub struct ExDocumentMut(toml_edit::DocumentMut);

/// What stands at each path of keys that leads through tables: whether it is a
/// table. The path without keys is the root.
pub uninterp spec fn doc_tables(doc: DocumentMut) -> Map<Seq<Seq<char>>, bool>;

/// The integers of a document, by the path of keys that leads to them through
/// tables.
pub uninterp spec fn doc_integers(doc: DocumentMut) -> Map<Seq<Seq<char>>, int>;

/// How the entries of a document are written, by the path of keys that leads to them
/// through tables: for a table the comments and spacing around its header, for
/// anything else its key and itself, with the comments and spacing around them. At
/// the path without keys stands what follows the last entry.
pub uninterp spec fn doc_entries(doc: DocumentMut) -> Map<Seq<Seq<char>>, Seq<char>>;

/// How `toml_edit` writes a document.
pub uninterp spec fn doc_text(doc: DocumentMut) -> Seq<char>;

/// What `toml_edit` reads in a text: the tables, the integers and the entries of the
/// document, or what it says against the text.
pub uninterp spec fn toml_parsed(raw: Seq<char>) -> Result<
    (Map<Seq<Seq<char>>, bool>, Map<Seq<Seq<char>>, int>, Map<Seq<Seq<char>>, Seq<char>>),
    Seq<char>,
>;

/// Whether the root is a table.
pub open spec fn rooted(tables: Map<Seq<Seq<char>>, bool>) -> bool {
    tables.contains_key(seq![]) && tables[seq![]]
}

/// Whether a table stands at `path`, or can be put there.
pub open spec fn opens(tables: Map<Seq<Seq<char>>, bool>, path: Seq<Seq<char>>) -> bool {
    !tables.contains_key(path) || tables[path]
}

/// The tables once there is something at `path`: a table, where there was nothing.
pub open spec fn opened(tables: Map<Seq<Seq<char>>, bool>, path: Seq<Seq<char>>) -> Map<
    Seq<Seq<char>>,
    bool,
> {
    if tables.contains_key(path) {
        tables
    } else {
        tables.insert(path, true)
    }
}

/// Whether two maps agree on every path that does not pass `path`.
pub open spec fn same_beside<V>(
    before: Map<Seq<Seq<char>>, V>,
    after: Map<Seq<Seq<char>>, V>,
    path: Seq<Seq<char>>,
) -> bool {
    forall|p: Seq<Seq<char>>|
        !path.is_prefix_of(p) ==> {
            &&& before.contains_key(p) == #[trigger] after.contains_key(p)
            &&& before.contains_key(p) ==> after[p] == before[p]
        }
}

/// Whether all that was there stays as it was, and nothing comes but at `path`.
pub open spec fn grown<V>(
    before: Map<Seq<Seq<char>>, V>,
    after: Map<Seq<Seq<char>>, V>,
    path: Seq<Seq<char>>,
) -> bool {
    forall|p: Seq<Seq<char>>|
        {
            &&& before.contains_key(p) ==> (#[trigger] after.contains_key(p)) && after[p]
                == before[p]
            &&& after.contains_key(p) ==> before.contains_key(p) || p == path
        }
}

/// `<toml_edit::DocumentMut as FromStr>::from_str`: the document that a text
/// writes, or the error as text. The root of what it reads is a table.
#[verifier::external_body]
pub(crate) fn parse_document(raw: &str) -> (res: Result<DocumentMut, String>)
    ensures
        match res {
            Ok(doc) => toml_parsed(raw@) == Ok::<
                (
                    Map<Seq<Seq<char>>, bool>,
                    Map<Seq<Seq<char>>, int>,
                    Map<Seq<Seq<char>>, Seq<char>>,
                ),
                Seq<char>,
            >((doc_tables(doc), doc_integers(doc), doc_entries(doc))) && rooted(doc_tables(doc)),
            Err(e) => toml_parsed(raw@) == Err::<
                (
                    Map<Seq<Seq<char>>, bool>,
                    Map<Seq<Seq<char>>, int>,
                    Map<Seq<Seq<char>>, Seq<char>>,
                ),
                Seq<char>,
            >(e@),
        },
{
    raw.parse::<DocumentMut>().map_err(|e| e.to_string())
}

/// `toml_edit::Table::entry` with `Entry::or_insert` on the root: leaves what
/// stands at the key, puts an empty table where nothing does, and says whether a
/// table stands there then. Every other entry stays as it is written.
#[verifier::external_body]
pub(crate) fn open_table(doc: &mut DocumentMut, key: &str) -> (res: bool)
    requires
        rooted(doc_tables(*old(doc))),
    ensures
        res == opens(doc_tables(*old(doc)), seq![key@]),
        doc_tables(*final(doc)) == opened(doc_tables(*old(doc)), seq![key@]),
        doc_integers(*final(doc)) == doc_integers(*old(doc)),
        grown(doc_entries(*old(doc)), doc_entries(*final(doc)), seq![key@]),
{
    doc.entry(key).or_insert(toml_edit::table()).is_table()
}

/// `toml_edit::Table::entry` with `Entry::or_insert` on the table at a key of the
/// root, likewise.
#[verifier::external_body]
pub(crate) fn open_subtable(doc: &mut DocumentMut, outer: &str, key: &str) -> (res: bool)
    requires
        rooted(doc_tables(*old(doc))),
        doc_tables(*old(doc)).contains_key(seq![outer@]) && doc_tables(*old(doc))[seq![outer@]],
    ensures
        res == opens(doc_tables(*old(doc)), seq![outer@, key@]),
        doc_tables(*final(doc)) == opened(doc_tables(*old(doc)), seq![outer@, key@]),
        doc_integers(*final(doc)) == doc_integers(*old(doc)),
        grown(doc_entries(*old(doc)), doc_entries(*final(doc)), seq![outer@, key@]),
{
    let table = doc[outer].as_table_mut().expect("a table");
    table.entry(key).or_insert(toml_edit::table()).is_table()
}

/// `IndexMut` of `toml_edit`'s documents and items: the integer takes the place of
/// what stood at the key; what stands elsewhere stays, and stays as it is written.
#[verifier::external_body]
pub(crate) fn set_integer(doc: &mut DocumentMut, outer: &str, inner: &str, key: &str, n: i64)
    requires
        rooted(doc_tables(*old(doc))),
        doc_tables(*old(doc)).contains_key(seq![outer@]) && doc_tables(*old(doc))[seq![outer@]],
        doc_tables(*old(doc)).contains_key(seq![outer@, inner@]) && doc_tables(
            *old(doc),
        )[seq![outer@, inner@]],
    ensures
        doc_integers(*final(doc)).contains_key(seq![outer@, inner@, key@]),
        doc_integers(*final(doc))[seq![outer@, inner@, key@]] == n,
        same_beside(
            doc_integers(*old(doc)),
            doc_integers(*final(doc)),
            seq![outer@, inner@, key@],
        ),
        same_beside(doc_tables(*old(doc)), doc_tables(*final(doc)), seq![outer@, inner@, key@]),
        same_beside(doc_entries(*old(doc)), doc_entries(*final(doc)), seq![outer@, inner@, key@]),
{
    doc[outer][inner][key] = toml_edit::value(n);
}

/// `<toml_edit::DocumentMut as ToString>::to_string`: the document as text. That
/// the text reads back as the same document is left unsaid.
#[verifier::external_body]
pub(crate) fn write_document(doc: &DocumentMut) -> (res: String)
    requires
        rooted(doc_tables(*doc)),
    ensures
        res@ == doc_text(*doc),
{
    doc.to_string()
}

} // verus!
