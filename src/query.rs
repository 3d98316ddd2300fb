//! The SQL text that the application's per-site store runs: queries with
//! filters, a deterministic order and a limit, table creation, inserts and
//! updates. Table names are built from numbers only; every value goes in as a
//! numbered parameter.

use vstd::prelude::*;
use vstd::string::StringExecFns;

use crate::text::{decimal, decimal_string, push_decimal};

verus! {

/// A filter on one field.
#[derive(Clone, Debug)]
pub struct WhereOperation {
    pub field_id: u32,
    pub value: String,
}

/// A sort on one field.
#[derive(Clone, Copy, Debug)]
pub struct SortingOperation {
    pub field_id: u32,
    pub descending: bool,
}

/// The type of a table field.
#[derive(Clone, Copy, Debug, PartialEq, Eq, Structural)]
pub enum SQLFieldTypes {
    Integer,
    Text,
    Blob,
}

/// A query as a site asks for it.
#[derive(Clone, Debug)]
pub struct DatabaseQuery {
    pub table_id: u32,
    pub number_of_fields: u32,
    pub sorting_operations: Vec<SortingOperation>,
    pub where_operations: Vec<WhereOperation>,
    pub limit: u32,
    pub offset: u32,
}

/// A table as a site declares it.
#[derive(Clone, Debug)]
pub struct DatabaseCreateTable {
    pub table_id: u32,
    pub fields: Vec<SQLFieldTypes>,
}

/// A row to insert.
#[derive(Clone, Debug)]
pub struct DatabaseInsertEntry {
    pub table_id: u32,
    pub data: Vec<String>,
}

/// New values for the row with a given primary key.
#[derive(Clone, Debug)]
pub struct DatabaseUpdateEntry {
    pub table_id: u32,
    pub select_on_primary_key_value: String,
    pub data: Vec<String>,
}

/// A query under construction: its text, its parameters, and the number of
/// the next parameter.
#[derive(Clone, Debug)]
pub struct Query {
    pub iterator: u32,
    pub query: String,
    pub parameters: Vec<String>,
}

/// The texts of a list of strings.
pub open spec fn texts(v: Seq<String>) -> Seq<Seq<char>> {
    v.map_values(|s: String| s@)
}

/// The name of a site's table: `site`, the site's namespace, the table number.
pub open spec fn table_name(table_id: u32, namespace: Seq<char>) -> Seq<char> {
    "site"@ + namespace + decimal(table_id as nat)
}

/// The lines of a filter: `field<id> = ?<n>`, joined by `AND`, one per line.
pub open spec fn where_lines(ops: Seq<WhereOperation>, first: nat) -> Seq<char>
    decreases ops.len(),
{
    if ops.len() == 0 {
        Seq::empty()
    } else {
        let k = (ops.len() - 1) as nat;
        where_lines(ops.drop_last(), first) + (if k == 0 {
            Seq::empty()
        } else {
            "AND "@
        }) + "field"@ + decimal(ops.last().field_id as nat) + " = ?"@ + decimal(first + k) + "\n"@
    }
}

/// The sort items: `field<id> ASC` or `DESC`, joined by a new line and a comma.
pub open spec fn sort_items(ops: Seq<SortingOperation>) -> Seq<char>
    decreases ops.len(),
{
    if ops.len() == 0 {
        Seq::empty()
    } else {
        sort_items(ops.drop_last()) + (if ops.len() == 1 {
            Seq::empty()
        } else {
            "\n, "@
        }) + "field"@ + decimal(ops.last().field_id as nat) + " "@ + (if ops.last().descending {
            "DESC"@
        } else {
            "ASC"@
        })
    }
}

/// The text of a field type.
pub open spec fn field_type_text(t: SQLFieldTypes) -> Seq<char> {
    match t {
        SQLFieldTypes::Integer => "INTEGER"@,
        SQLFieldTypes::Text => "TEXT"@,
        SQLFieldTypes::Blob => "BLOB"@,
    }
}

/// The field definitions after the primary key: `, field<i> <TYPE> NOT NULL`.
pub open spec fn field_definitions(fields: Seq<SQLFieldTypes>) -> Seq<char>
    decreases fields.len(),
{
    if fields.len() == 0 {
        Seq::empty()
    } else {
        field_definitions(fields.drop_last()) + ", field"@ + decimal((fields.len() - 1) as nat)
            + " "@ + field_type_text(fields.last()) + " NOT NULL"@
    }
}

/// `field0, field1, ...` for `n` fields.
pub open spec fn insert_fields(n: nat) -> Seq<char>
    decreases n,
{
    if n == 0 {
        Seq::empty()
    } else {
        insert_fields((n - 1) as nat) + (if n == 1 {
            Seq::empty()
        } else {
            ", "@
        }) + "field"@ + decimal((n - 1) as nat)
    }
}

/// `?1, ?2, ...` for `n` parameters.
pub open spec fn insert_parameters(n: nat) -> Seq<char>
    decreases n,
{
    if n == 0 {
        Seq::empty()
    } else {
        insert_parameters((n - 1) as nat) + (if n == 1 {
            Seq::empty()
        } else {
            ", "@
        }) + "?"@ + decimal(n)
    }
}

/// `field1 = ?1, field2 = ?2, ...` for `n` fields.
pub open spec fn update_items(n: nat) -> Seq<char>
    decreases n,
{
    if n == 0 {
        Seq::empty()
    } else {
        update_items((n - 1) as nat) + (if n == 1 {
            Seq::empty()
        } else {
            ", "@
        }) + "field"@ + decimal(n) + " = ?"@ + decimal(n)
    }
}

impl Query {
    /// The name of a site's table.
    pub fn calculate_table_name(table_id: u32, application_table_namespace: &str) -> (r: String)
        ensures
            r@ == table_name(table_id, application_table_namespace@),
    {
        let mut s = String::new();
        s.append("site");
        s.append(application_table_namespace);
        push_decimal(&mut s, table_id as u64);
        assert(s@ =~= table_name(table_id, application_table_namespace@));
        s
    }

    /// `SELECT * FROM <table>` and a new line; parameters will start at 1.
    pub fn select(table_id: u32, application_table_namespace: &str) -> (r: Query)
        ensures
            r.iterator == 1,
            r.query@ == "SELECT * FROM "@ + table_name(table_id, application_table_namespace@)
                + "\n"@,
            r.parameters@.len() == 0,
    {
        let table_name = Query::calculate_table_name(table_id, application_table_namespace);
        let mut query = String::new();
        query.append("SELECT * FROM ");
        query.append(table_name.as_str());
        query.append("\n");
        assert(query@ =~= "SELECT * FROM "@ + table_name@ + "\n"@);
        Query { iterator: 1, query, parameters: Vec::new() }
    }

    /// Adds the filters, each value as the next parameter; nothing for none.
    pub fn sql_where(self, where_operations: Vec<WhereOperation>) -> (r: Query)
        requires
            self.iterator + where_operations@.len() <= u32::MAX,
        ensures
            where_operations@.len() == 0 ==> r.query@ == self.query@,
            where_operations@.len() > 0 ==> r.query@ == self.query@ + "WHERE\n"@ + where_lines(
                where_operations@,
                self.iterator as nat,
            ),
            r.iterator == self.iterator + where_operations@.len(),
            texts(r.parameters@) == texts(self.parameters@) + where_operations@.map_values(
                |w: WhereOperation| w.value@,
            ),
    {
        let mut q = self;
        if where_operations.len() == 0 {
            assert(texts(q.parameters@) =~= texts(q.parameters@) + where_operations@.map_values(
                |w: WhereOperation| w.value@,
            ));
            return q;
        }
        let ghost start = q.iterator as nat;
        let ghost query0 = q.query@;
        let ghost params0 = texts(q.parameters@);
        q.query.append("WHERE\n");
        let mut i: usize = 0;
        while i < where_operations.len()
            invariant
                i <= where_operations@.len(),
                start + where_operations@.len() <= u32::MAX,
                q.iterator == start + i,
                q.query@ == query0 + "WHERE\n"@ + where_lines(where_operations@.take(i as int), start),
                texts(q.parameters@) == params0 + where_operations@.take(i as int).map_values(
                    |w: WhereOperation| w.value@,
                ),
            decreases where_operations@.len() - i,
        {
            let op = &where_operations[i];
            let ghost before = q.query@;
            if i > 0 {
                q.query.append("AND ");
            }
            q.query.append("field");
            push_decimal(&mut q.query, op.field_id as u64);
            q.query.append(" = ?");
            push_decimal(&mut q.query, q.iterator as u64);
            q.query.append("\n");
            let ghost pbefore = q.parameters@;
            let v = op.value.clone();
            assert(v@ == where_operations@[i as int].value@);
            q.parameters.push(v);
            assert(texts(q.parameters@) =~= texts(pbefore).push(v@));
            q.iterator = q.iterator + 1;
            proof {
                let t = where_operations@.take(i + 1);
                assert(t.drop_last() =~= where_operations@.take(i as int));
                assert(t.last() == where_operations@[i as int]);
                assert(q.query@ =~= query0 + "WHERE\n"@ + where_lines(t, start));
                assert(texts(q.parameters@) =~= params0 + t.map_values(|w: WhereOperation| w.value@));
            }
            i = i + 1;
        }
        assert(where_operations@.take(i as int) =~= where_operations@);
        q
    }

    /// Adds the order: the given sorts, then always the primary key, descending,
    /// so that every query's order is deterministic.
    pub fn sql_sort_determistic(self, sorting_operations: Vec<SortingOperation>) -> (r: Query)
        ensures
            r.query@ == self.query@ + "ORDER BY\n  "@ + sort_items(sorting_operations@) + (if sorting_operations@.len() == 0 {
                Seq::empty()
            } else {
                "\n, "@
            }) + "__PRIMKEY DESC"@,
            r.iterator == self.iterator,
            r.parameters == self.parameters,
    {
        let mut q = self;
        let ghost query0 = q.query@;
        q.query.append("ORDER BY\n  ");
        let mut i: usize = 0;
        while i < sorting_operations.len()
            invariant
                i <= sorting_operations@.len(),
                q.iterator == self.iterator,
                q.parameters == self.parameters,
                q.query@ == query0 + "ORDER BY\n  "@ + sort_items(sorting_operations@.take(i as int)),
            decreases sorting_operations@.len() - i,
        {
            let op = sorting_operations[i];
            if i > 0 {
                q.query.append("\n, ");
            }
            q.query.append("field");
            push_decimal(&mut q.query, op.field_id as u64);
            q.query.append(" ");
            if op.descending {
                q.query.append("DESC");
            } else {
                q.query.append("ASC");
            }
            proof {
                let t = sorting_operations@.take(i + 1);
                assert(t.drop_last() =~= sorting_operations@.take(i as int));
                assert(t.last() == sorting_operations@[i as int]);
                assert(q.query@ =~= query0 + "ORDER BY\n  "@ + sort_items(t));
            }
            i = i + 1;
        }
        assert(sorting_operations@.take(i as int) =~= sorting_operations@);
        if i == 0 {
            q.query.append("__PRIMKEY DESC");
        } else {
            q.query.append("\n, __PRIMKEY DESC");
            assert("\n, __PRIMKEY DESC"@ =~= "\n, "@ + "__PRIMKEY DESC"@) by {
                reveal_strlit("\n, __PRIMKEY DESC");
                reveal_strlit("\n, ");
                reveal_strlit("__PRIMKEY DESC");
            }
        }
        assert(q.query@ =~= query0 + "ORDER BY\n  "@ + sort_items(sorting_operations@) + (if sorting_operations@.len() == 0 {
            Seq::empty()
        } else {
            "\n, "@
        }) + "__PRIMKEY DESC"@);
        q
    }

    /// Adds `LIMIT ?<n> OFFSET ?<n+1>` with the limit and offset as the next two
    /// parameters; nothing for a limit of zero.
    pub fn sql_limit(self, limit: u32, offset: u32) -> (r: Query)
        requires
            limit != 0 ==> self.iterator + 2 <= u32::MAX,
        ensures
            limit == 0 ==> r.query == self.query && r.iterator == self.iterator && r.parameters
                == self.parameters,
            limit != 0 ==> {
                &&& r.query@ == self.query@ + "\nLIMIT ?"@ + decimal(self.iterator as nat)
                    + " OFFSET ?"@ + decimal((self.iterator + 1) as nat)
                &&& r.iterator == self.iterator + 2
                &&& texts(r.parameters@) == texts(self.parameters@).push(decimal(limit as nat)).push(
                    decimal(offset as nat),
                )
            },
    {
        if limit == 0 {
            return self;
        }
        let mut q = self;
        let ghost query0 = q.query@;
        let ghost params0 = texts(q.parameters@);
        q.query.append("\nLIMIT ?");
        push_decimal(&mut q.query, q.iterator as u64);
        q.query.append(" OFFSET ?");
        push_decimal(&mut q.query, q.iterator as u64 + 1);
        q.iterator = q.iterator + 2;
        q.parameters.push(decimal_string(limit as u64));
        q.parameters.push(decimal_string(offset as u64));
        assert(q.query@ =~= query0 + "\nLIMIT ?"@ + decimal(self.iterator as nat) + " OFFSET ?"@
            + decimal((self.iterator + 1) as nat));
        assert(texts(q.parameters@) =~= params0.push(decimal(limit as nat)).push(decimal(offset as nat)));
        q
    }

    /// The finished text and parameters.
    pub fn calculate(self) -> (r: (String, Vec<String>))
        ensures
            r.0 == self.query,
            r.1 == self.parameters,
    {
        (self.query, self.parameters)
    }

    /// `CREATE TABLE <table> (__PRIMKEY INTEGER PRIMARY KEY NOT NULL, field0 <TYPE> NOT NULL, ...)`.
    pub fn create_table(database_create_table: DatabaseCreateTable, application_table_namespace: &str) -> (r: (String, Vec<String>))
        ensures
            r.0@ == "CREATE TABLE "@ + table_name(database_create_table.table_id, application_table_namespace@)
                + " (__PRIMKEY INTEGER PRIMARY KEY NOT NULL"@ + field_definitions(
                database_create_table.fields@,
            ) + ")"@,
            r.1@.len() == 0,
    {
        let fields = &database_create_table.fields;
        let table_name = Query::calculate_table_name(database_create_table.table_id, application_table_namespace);
        let mut s = String::new();
        s.append("CREATE TABLE ");
        s.append(table_name.as_str());
        s.append(" (__PRIMKEY INTEGER PRIMARY KEY NOT NULL");
        let ghost head = s@;
        let mut i: usize = 0;
        while i < fields.len()
            invariant
                i <= fields@.len(),
                s@ == head + field_definitions(fields@.take(i as int)),
            decreases fields@.len() - i,
        {
            s.append(", field");
            push_decimal(&mut s, i as u64);
            s.append(" ");
            match fields[i] {
                SQLFieldTypes::Integer => s.append("INTEGER"),
                SQLFieldTypes::Text => s.append("TEXT"),
                SQLFieldTypes::Blob => s.append("BLOB"),
            }
            s.append(" NOT NULL");
            proof {
                let t = fields@.take(i + 1);
                assert(t.drop_last() =~= fields@.take(i as int));
                assert(t.last() == fields@[i as int]);
                assert(s@ =~= head + field_definitions(t));
            }
            i = i + 1;
        }
        assert(fields@.take(i as int) =~= fields@);
        s.append(")");
        (s, Vec::new())
    }

    /// `INSERT INTO <table> (field0, ...) VALUES (?1, ...)`, with the row's
    /// values as the parameters.
    pub fn sql_insert(database_insert_entry: DatabaseInsertEntry, application_table_namespace: &str) -> (r: (String, Vec<String>))
        requires
            database_insert_entry.data@.len() < u64::MAX,
        ensures
            r.0@ == "INSERT INTO "@ + table_name(database_insert_entry.table_id, application_table_namespace@)
                + " ("@ + insert_fields(database_insert_entry.data@.len()) + ") VALUES ("@
                + insert_parameters(database_insert_entry.data@.len()) + ")"@,
            r.1 == database_insert_entry.data,
    {
        let table_name = Query::calculate_table_name(database_insert_entry.table_id, application_table_namespace);
        let n = database_insert_entry.data.len();
        let mut fields = String::new();
        let mut params = String::new();
        let mut i: usize = 0;
        while i < n
            invariant
                i <= n,
                n == database_insert_entry.data@.len(),
                n < u64::MAX,
                fields@ == insert_fields(i as nat),
                params@ == insert_parameters(i as nat),
            decreases n - i,
        {
            if i > 0 {
                fields.append(", ");
                params.append(", ");
            }
            fields.append("field");
            push_decimal(&mut fields, i as u64);
            params.append("?");
            push_decimal(&mut params, i as u64 + 1);
            assert(fields@ =~= insert_fields((i + 1) as nat));
            assert(params@ =~= insert_parameters((i + 1) as nat));
            i = i + 1;
        }
        let mut s = String::new();
        s.append("INSERT INTO ");
        s.append(table_name.as_str());
        s.append(" (");
        s.append(fields.as_str());
        s.append(") VALUES (");
        s.append(params.as_str());
        s.append(")");
        (s, database_insert_entry.data)
    }

    /// `UPDATE <table> \n SET field1 = ?1, ... \n WHERE field0 = ?<n+1>`, with
    /// the new values and then the primary key as the parameters.
    pub fn sql_update(database_update_entry: DatabaseUpdateEntry, application_table_namespace: &str) -> (r: (String, Vec<String>))
        requires
            database_update_entry.data@.len() + 1 < u64::MAX,
        ensures
            r.0@ == "UPDATE "@ + table_name(database_update_entry.table_id, application_table_namespace@)
                + " \n SET "@ + update_items(database_update_entry.data@.len()) + " \n WHERE field0 = ?"@
                + decimal((database_update_entry.data@.len() + 1) as nat),
            texts(r.1@) == texts(database_update_entry.data@).push(
                database_update_entry.select_on_primary_key_value@,
            ),
    {
        let table_name = Query::calculate_table_name(database_update_entry.table_id, application_table_namespace);
        let n = database_update_entry.data.len();
        let mut items = String::new();
        let mut i: usize = 0;
        while i < n
            invariant
                i <= n,
                n == database_update_entry.data@.len(),
                n + 1 < u64::MAX,
                items@ == update_items(i as nat),
            decreases n - i,
        {
            if i > 0 {
                items.append(", ");
            }
            items.append("field");
            push_decimal(&mut items, i as u64 + 1);
            items.append(" = ?");
            push_decimal(&mut items, i as u64 + 1);
            assert(items@ =~= update_items((i + 1) as nat));
            i = i + 1;
        }
        let mut s = String::new();
        s.append("UPDATE ");
        s.append(table_name.as_str());
        s.append(" \n SET ");
        s.append(items.as_str());
        s.append(" \n WHERE field0 = ?");
        push_decimal(&mut s, n as u64 + 1);
        let mut params = database_update_entry.data;
        let ghost p0 = texts(params@);
        params.push(database_update_entry.select_on_primary_key_value);
        assert(texts(params@) =~= p0.push(database_update_entry.select_on_primary_key_value@));
        (s, params)
    }
}

} // verus!
