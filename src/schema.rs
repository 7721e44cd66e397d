//! The catalog's shape: one table per plugin, shaped by its field list, and
//! the record of which plugin version last shaped it.
use crate::media::{str_equal, Media, MetadataField};
use crate::text::{join, joined, views};
use crate::version::Version;
use vstd::prelude::*;
use vstd::string::*;

verus! {

/// Kind of plugin.
#[derive(Debug, Clone, Copy, PartialEq, Eq, Structural, Hash)]
pub enum PluginKind {
    /// A media plugin.
    Media,
}

impl PluginKind {
    /// Name under which the kind is stored.
    pub open spec fn spec_name(self) -> Seq<char> {
        match self {
            PluginKind::Media => "media"@,
        }
    }

    /// Reads a stored kind name.
    pub fn parse(s: &str) -> (r: Option<PluginKind>)
        ensures
            r == (if s@ == "media"@ {
                Some(PluginKind::Media)
            } else {
                None
            }),
    {
        if str_equal(s, "media") {
            Some(PluginKind::Media)
        } else {
            None
        }
    }

    /// Name under which the kind is stored.
    pub fn name(&self) -> (r: &'static str)
        ensures
            r@ == self.spec_name(),
    {
        match self {
            PluginKind::Media => "media",
        }
    }
}

/// The catalog's record of the plugin version that last shaped a table.
#[derive(Debug, Clone)]
pub struct PluginRecord {
    /// Name of the plugin.
    pub name: String,
    /// Kind of the plugin.
    pub kind: PluginKind,
    /// Version of the plugin when it last shaped its table.
    pub version: Version,
}

/// Whether no two records share a name and kind.
pub open spec fn records_unique(records: Seq<PluginRecord>) -> bool {
    forall|i: int, j: int|
        0 <= i < j < records.len() ==> !(#[trigger] records[i].name@ == #[trigger] records[j].name@
            && records[i].kind == records[j].kind)
}

/// A plugin's table must be rebuilt unless a record for its name and kind
/// holds a version compatible with its current one.
pub open spec fn needs_rebuild(
    records: Seq<PluginRecord>,
    name: Seq<char>,
    kind: PluginKind,
    version: Version,
) -> bool {
    !exists|i: int|
        0 <= i < records.len() && #[trigger] records[i].name@ == name && records[i].kind == kind
            && version.compatible(records[i].version)
}

/// Decides whether the plugin `name` of kind `kind`, now at `version`, must
/// have its table rebuilt.
pub fn needs_schema_sync(
    records: &Vec<PluginRecord>,
    name: &str,
    kind: PluginKind,
    version: Version,
) -> (r: bool)
    ensures
        r == needs_rebuild(records@, name@, kind, version),
{
    let n = records.len();
    let mut i: usize = 0;
    while i < n
        invariant
            n == records@.len(),
            i <= n,
            forall|j: int|
                0 <= j < i ==> !(#[trigger] records@[j].name@ == name@ && records@[j].kind == kind
                    && version.compatible(records@[j].version)),
        decreases n - i,
    {
        let rec = &records[i];
        if str_equal(rec.name.as_str(), name) && rec.kind == kind && version.is_compatible(
            &rec.version,
        ) {
            return false;
        }
        i = i + 1;
    }
    true
}

/// With one record per name and kind, a table is rebuilt exactly when its
/// plugin has no record, or a record whose version is not compatible with the
/// plugin's current one.
pub proof fn lemma_rebuild_gating(
    records: Seq<PluginRecord>,
    name: Seq<char>,
    kind: PluginKind,
    version: Version,
    i: int,
)
    requires
        records_unique(records),
    ensures
        0 <= i < records.len() && records[i].name@ == name && records[i].kind == kind ==> (
        needs_rebuild(records, name, kind, version) == !version.compatible(records[i].version)),
        (forall|j: int|
            0 <= j < records.len() ==> !(#[trigger] records[j].name@ == name && records[j].kind
                == kind)) ==> needs_rebuild(records, name, kind, version),
{
    if 0 <= i < records.len() && records[i].name@ == name && records[i].kind == kind {
        if !version.compatible(records[i].version) {
            assert forall|j: int|
                0 <= j < records.len() && #[trigger] records[j].name@ == name && records[j].kind
                    == kind implies !version.compatible(records[j].version) by {
                if j != i {
                    if j < i {
                        assert(!(records[j].name@ == records[i].name@ && records[j].kind
                            == records[i].kind));
                    } else {
                        assert(!(records[i].name@ == records[j].name@ && records[i].kind
                            == records[j].kind));
                    }
                }
            }
        }
    }
}

/// Name of the table of the media with identifier `ident`.
pub open spec fn table_name(ident: Seq<char>) -> Seq<char> {
    "media_"@ + ident
}

/// Column definition of a field; a list is stored as serialized text.
pub open spec fn column_def(f: MetadataField) -> Seq<char> {
    f.ident@ + " "@ + if f.is_list {
        "TEXT NOT NULL DEFAULT (json_array())"@
    } else {
        f.field_type.sql_name()
    }
}

/// Column definitions of a table: path and modification time, then the fields.
pub open spec fn column_defs(fields: Seq<MetadataField>) -> Seq<Seq<char>> {
    seq!["path TEXT NOT NULL PRIMARY KEY ON CONFLICT REPLACE"@, "mtime TEXT NOT NULL"@]
        + fields.map_values(|f: MetadataField| column_def(f))
}

/// Statements that replace a media's table by an empty one of its shape.
pub open spec fn rebuild_sql(ident: Seq<char>, fields: Seq<MetadataField>) -> Seq<char> {
    "DROP TABLE IF EXISTS "@ + table_name(ident) + "; CREATE TABLE "@ + table_name(ident) + " ("@
        + joined(column_defs(fields), ","@) + ") STRICT, WITHOUT ROWID;"@
}

/// Placeholder that binds a field's value; an absent list reads as empty.
pub open spec fn bind_of(f: MetadataField) -> Seq<char> {
    if f.is_list {
        "ifnull(?, json_array())"@
    } else {
        "?"@
    }
}

/// Statement that inserts one row of a media.
pub open spec fn insert_sql(ident: Seq<char>, fields: Seq<MetadataField>) -> Seq<char> {
    "INSERT INTO "@ + table_name(ident) + "("@ + joined(
        seq!["path"@, "mtime"@] + fields.map_values(|f: MetadataField| f.ident@),
        ", "@,
    ) + ") VALUES ("@ + joined(
        seq!["?"@, "?"@] + fields.map_values(|f: MetadataField| bind_of(f)),
        ", "@,
    ) + ")"@
}

/// Statement that reads the path and modification time of every row.
pub open spec fn select_cached_sql(ident: Seq<char>) -> Seq<char> {
    "SELECT path, mtime FROM "@ + table_name(ident)
}

/// Statement that deletes the rows of `n` given paths.
pub open spec fn delete_sql(ident: Seq<char>, n: nat) -> Seq<char> {
    "DELETE FROM "@ + table_name(ident) + " WHERE path IN ("@ + joined(
        Seq::new(n, |k: int| "?"@),
        ", "@,
    ) + ")"@
}

/// Returns the name of the media's table.
pub fn table_ident(media: &Media) -> (r: String)
    ensures
        r@ == table_name(media.ident@),
{
    let mut out = String::from_str("media_");
    out.append(media.ident.to_str());
    out
}

/// Returns the column definition of one field.
pub fn column_definition(f: &MetadataField) -> (r: String)
    ensures
        r@ == column_def(*f),
{
    let mut out = String::from_str(f.ident.to_str());
    out.append(" ");
    if f.is_list {
        out.append("TEXT NOT NULL DEFAULT (json_array())");
    } else {
        out.append(f.field_type.to_sql());
    }
    out
}

/// Returns the statements that drop the media's table, if any, and create it
/// anew with one column per field.
pub fn rebuild_statement(media: &Media) -> (r: String)
    ensures
        r@ == rebuild_sql(media.ident@, media.fields@),
{
    let fields = media.fields.to_slice();
    let n = fields.len();
    let mut defs: Vec<String> = Vec::new();
    defs.push(String::from_str("path TEXT NOT NULL PRIMARY KEY ON CONFLICT REPLACE"));
    defs.push(String::from_str("mtime TEXT NOT NULL"));
    let mut i: usize = 0;
    while i < n
        invariant
            n == media.fields@.len(),
            fields@ == media.fields@,
            i <= n,
            views(defs@) == column_defs(media.fields@.subrange(0, i as int)),
        decreases n - i,
    {
        let ghost before = defs@;
        defs.push(column_definition(&fields[i]));
        assert(views(defs@) =~= views(before).push(column_def(media.fields@[i as int])));
        assert(media.fields@.subrange(0, i + 1).map_values(|f: MetadataField| column_def(f))
            =~= media.fields@.subrange(0, i as int).map_values(|f: MetadataField| column_def(f)).push(
            column_def(media.fields@[i as int]),
        ));
        i = i + 1;
    }
    assert(media.fields@.subrange(0, n as int) =~= media.fields@);
    let table = table_ident(media);
    let mut out = String::from_str("DROP TABLE IF EXISTS ");
    out.append(table.as_str());
    out.append("; CREATE TABLE ");
    out.append(table.as_str());
    out.append(" (");
    let cols = join(&defs, ",");
    out.append(cols.as_str());
    out.append(") STRICT, WITHOUT ROWID;");
    out
}

/// Returns the statement that inserts one row of the media.
pub fn insert_statement(media: &Media) -> (r: String)
    ensures
        r@ == insert_sql(media.ident@, media.fields@),
{
    let fields = media.fields.to_slice();
    let n = fields.len();
    let mut names: Vec<String> = Vec::new();
    let mut binds: Vec<String> = Vec::new();
    names.push(String::from_str("path"));
    names.push(String::from_str("mtime"));
    binds.push(String::from_str("?"));
    binds.push(String::from_str("?"));
    let mut i: usize = 0;
    while i < n
        invariant
            n == media.fields@.len(),
            fields@ == media.fields@,
            i <= n,
            views(names@) == seq!["path"@, "mtime"@] + media.fields@.subrange(
                0,
                i as int,
            ).map_values(|f: MetadataField| f.ident@),
            views(binds@) == seq!["?"@, "?"@] + media.fields@.subrange(0, i as int).map_values(
                |f: MetadataField| bind_of(f),
            ),
        decreases n - i,
    {
        let ghost names_before = names@;
        let ghost binds_before = binds@;
        let f = &fields[i];
        names.push(String::from_str(f.ident.to_str()));
        if f.is_list {
            binds.push(String::from_str("ifnull(?, json_array())"));
        } else {
            binds.push(String::from_str("?"));
        }
        assert(views(names@) =~= views(names_before).push(f.ident@));
        assert(views(binds@) =~= views(binds_before).push(bind_of(*f)));
        assert(media.fields@.subrange(0, i + 1).map_values(|f: MetadataField| f.ident@)
            =~= media.fields@.subrange(0, i as int).map_values(|f: MetadataField| f.ident@).push(
            f.ident@,
        ));
        assert(media.fields@.subrange(0, i + 1).map_values(|f: MetadataField| bind_of(f))
            =~= media.fields@.subrange(0, i as int).map_values(|f: MetadataField| bind_of(f)).push(
            bind_of(*f),
        ));
        i = i + 1;
    }
    assert(media.fields@.subrange(0, n as int) =~= media.fields@);
    let table = table_ident(media);
    let mut out = String::from_str("INSERT INTO ");
    out.append(table.as_str());
    out.append("(");
    let cols = join(&names, ", ");
    out.append(cols.as_str());
    out.append(") VALUES (");
    let vals = join(&binds, ", ");
    out.append(vals.as_str());
    out.append(")");
    out
}

/// Returns the statement that reads the path and modification time of every
/// row of the media's table.
pub fn select_cached_statement(media: &Media) -> (r: String)
    ensures
        r@ == select_cached_sql(media.ident@),
{
    let table = table_ident(media);
    let mut out = String::from_str("SELECT path, mtime FROM ");
    out.append(table.as_str());
    out
}

/// Returns the statement that deletes the rows of `n` paths, bound in order.
pub fn delete_statement(media: &Media, n: usize) -> (r: String)
    ensures
        r@ == delete_sql(media.ident@, n as nat),
{
    let mut binds: Vec<String> = Vec::new();
    let mut i: usize = 0;
    while i < n
        invariant
            i <= n,
            views(binds@) == Seq::new(i as nat, |k: int| "?"@),
        decreases n - i,
    {
        let ghost before = binds@;
        binds.push(String::from_str("?"));
        assert(views(binds@) =~= views(before).push("?"@));
        assert(Seq::new((i + 1) as nat, |k: int| "?"@) =~= Seq::new(i as nat, |k: int| "?"@).push(
            "?"@,
        ));
        i = i + 1;
    }
    let table = table_ident(media);
    let mut out = String::from_str("DELETE FROM ");
    out.append(table.as_str());
    out.append(" WHERE path IN (");
    let list = join(&binds, ", ");
    out.append(list.as_str());
    out.append(")");
    out
}

} // verus!
