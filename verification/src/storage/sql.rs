//! Keyed checkpoints in a SQL database.
use crate::checkpoint::CheckpointStore;
use crate::identity;
use crate::identity::PipelineId;
use crate::storage::load;
use crate::storage::load::{load, Fetched, LoadFailure};
use std::marker::PhantomData;
use vstd::prelude::*;

verus! {

/// A failure of a database, `sqlx_core::Error`.
#[verifier::external_type_specification]
#[verifier::external_body]
pub struct ExSqlxError(sqlx_core::Error);

/// Errors produced by [`SqlCheckpoint`].
#[derive(Debug)]
pub enum SqlCheckpointError {
    InvalidPipelineId,
    InvalidIdentifier { kind: &'static str, identifier: String },
    Json(serde_json::Error),
    Database(sqlx_core::Error),
}

/// How `Debug` for `str` writes a text: in double quotation marks, escaped where need be.
pub uninterp spec fn quoted(text: Seq<char>) -> Seq<char>;

/// A text as `Debug` for `str` writes it.
#[verifier::external_body]
fn quote(text: &str) -> (quotation: String)
    ensures
        quotation@ == quoted(text@),
{
    format!("{text:?}")
}

impl SqlCheckpointError {
    /// The failure in words; a failure that has another for its cause leaves the words to that one.
    pub open spec fn words(self) -> Option<Seq<char>> {
        match self {
            SqlCheckpointError::InvalidPipelineId => Some(
                "pipeline_id must contain between 1 and 255 bytes"@,
            ),
            SqlCheckpointError::InvalidIdentifier { kind, identifier } => Some(
                "invalid portable SQL "@ + kind@ + " identifier "@ + quoted(identifier@),
            ),
            SqlCheckpointError::Json(_) => None,
            SqlCheckpointError::Database(_) => None,
        }
    }

    /// The failure in words; a failure that has another for its cause leaves the words to that one.
    pub fn message(&self) -> (text: Option<String>)
        ensures
            match text {
                Some(text) => self.words() == Some(text@),
                None => self.words() is None,
            },
    {
        match self {
            SqlCheckpointError::InvalidPipelineId => Some(
                "pipeline_id must contain between 1 and 255 bytes".to_owned(),
            ),
            SqlCheckpointError::InvalidIdentifier { kind, identifier } => {
                let mut text = "invalid portable SQL ".to_owned();
                text.append(*kind);
                text.append(" identifier ");
                text.append(quote(identifier.as_str()).as_str());
                Some(text)
            },
            SqlCheckpointError::Json(_) => None,
            SqlCheckpointError::Database(_) => None,
        }
    }
}

/// The PostgreSQL dialect.
#[derive(Debug, Default, Clone, Copy)]
pub struct Postgres;

/// The MySQL dialect.
#[derive(Debug, Default, Clone, Copy)]
pub struct MySql;

/// The SQLite dialect.
#[derive(Debug, Default, Clone, Copy)]
pub struct Sqlite;

/// Whether a portable identifier may begin with a character.
pub open spec fn begins_identifier(character: char) -> bool {
    'a' <= character <= 'z' || 'A' <= character <= 'Z' || character == '_'
}

/// Whether a portable identifier may hold a character behind its first.
pub open spec fn continues_identifier(character: char) -> bool {
    begins_identifier(character) || '0' <= character <= '9'
}

/// Whether a text is a portable identifier: ASCII letters, digits and underscores, with no digit in
/// front.
pub open spec fn is_identifier(text: Seq<char>) -> bool {
    &&& text.len() > 0
    &&& begins_identifier(text[0])
    &&& forall|i: int| 0 <= i < text.len() ==> continues_identifier(#[trigger] text[i])
}

/// A portable identifier holds no quotation mark of any dialect, so quoting it is enough.
pub proof fn identifiers_need_no_escapes(text: Seq<char>)
    requires
        is_identifier(text),
    ensures
        !text.contains('"'),
        !text.contains('`'),
        !text.contains('\''),
{
    assert forall|i: int| 0 <= i < text.len() implies #[trigger] text[i] != '"' && text[i] != '`'
        && text[i] != '\'' by {
        assert(continues_identifier(text[i]));
    }
}

/// Check a portable identifier.
pub fn validated_identifier(kind: &'static str, identifier: String) -> (validated: Result<
    String,
    SqlCheckpointError,
>)
    ensures
        match validated {
            Ok(text) => is_identifier(identifier@) && text == identifier,
            Err(SqlCheckpointError::InvalidIdentifier { kind: k, identifier: text }) => {
                !is_identifier(identifier@) && k == kind && text == identifier
            },
            Err(_) => false,
        },
{
    let count = identifier.as_str().unicode_len();
    if count == 0 {
        return Err(SqlCheckpointError::InvalidIdentifier { kind, identifier });
    }
    let mut index: usize = 0;
    while index < count
        invariant
            index <= count == identifier@.len(),
            count > 0,
            index > 0 ==> begins_identifier(identifier@[0]),
            forall|i: int| 0 <= i < index ==> continues_identifier(#[trigger] identifier@[i]),
        decreases count - index,
    {
        let character = identifier.as_str().get_char(index);
        let begins = ('a' <= character && character <= 'z') || ('A' <= character && character
            <= 'Z') || character == '_';
        let continues = begins || (index > 0 && '0' <= character && character <= '9');
        if !continues {
            proof {
                assert(identifier@[index as int] == character);
            }
            return Err(SqlCheckpointError::InvalidIdentifier { kind, identifier });
        }
        index = index + 1;
    }
    Ok(identifier)
}

/// Whether a text can key a checkpoint: 1 to 255 bytes.
pub open spec fn is_key(text: Seq<char>) -> bool {
    text.len() > 0 && vstd::utf8::encode_utf8(text).len() <= 255
}

/// A keyed JSON checkpoint stored in a caller-owned connection pool.
#[derive(Debug)]
pub struct SqlCheckpoint<Db, Po> {
    pool: Po,
    pipeline_id: String,
    table: String,
    schema: String,
    dialect: PhantomData<Db>,
}

impl<Db, Po> SqlCheckpoint<Db, Po> {
    #[verifier::type_invariant]
    spec fn is_valid(self) -> bool {
        &&& is_key(self.pipeline_id@)
        &&& is_identifier(self.table@)
        &&& is_identifier(self.schema@)
    }

    /// The connection pool.
    pub closed spec fn connections(self) -> Po {
        self.pool
    }

    /// What the checkpoint is kept under.
    pub closed spec fn key(self) -> Seq<char> {
        self.pipeline_id@
    }

    /// The table that holds the checkpoint.
    pub closed spec fn table_name(self) -> Seq<char> {
        self.table@
    }

    /// The schema that holds the table, where the dialect has schemas.
    pub closed spec fn schema_name(self) -> Seq<char> {
        self.schema@
    }

    /// Construct a checkpoint without performing any DDL.
    pub fn new(pool: Po, pipeline_id: impl Into<String>) -> (checkpoint: Result<
        Self,
        SqlCheckpointError,
    >)
        ensures
            exists|text: String|
                {
                    &&& call_ensures(Into::<String>::into, (pipeline_id,), text)
                    &&& match checkpoint {
                        Ok(checkpoint) => {
                            &&& is_key(text@)
                            &&& checkpoint.connections() == pool
                            &&& checkpoint.key() == text@
                            &&& checkpoint.table_name() == "checkpoints"@
                            &&& checkpoint.schema_name() == "penstock"@
                        },
                        Err(error) => !is_key(text@)
                            && error == SqlCheckpointError::InvalidPipelineId,
                    }
                },
    {
        let text: String = pipeline_id.into();
        Self::for_key(pool, text)
    }

    /// Construct a checkpoint under a key, without performing any DDL.
    pub fn for_key(pool: Po, pipeline_id: String) -> (checkpoint: Result<Self, SqlCheckpointError>)
        ensures
            match checkpoint {
                Ok(checkpoint) => {
                    &&& is_key(pipeline_id@)
                    &&& checkpoint.connections() == pool
                    &&& checkpoint.key() == pipeline_id@
                    &&& checkpoint.table_name() == "checkpoints"@
                    &&& checkpoint.schema_name() == "penstock"@
                },
                Err(error) => !is_key(pipeline_id@)
                    && error == SqlCheckpointError::InvalidPipelineId,
            },
    {
        if pipeline_id.as_str().unicode_len() == 0 || pipeline_id.as_str().as_bytes().len() > 255 {
            return Err(SqlCheckpointError::InvalidPipelineId);
        }
        proof {
            reveal_strlit("checkpoints");
            reveal_strlit("penstock");
        }
        Ok(
            SqlCheckpoint {
                pool,
                pipeline_id,
                table: "checkpoints".to_owned(),
                schema: "penstock".to_owned(),
                dialect: PhantomData,
            },
        )
    }

    /// Construct a checkpoint under a pipeline identity, which needs no further check.
    pub fn with_id(pool: Po, id: PipelineId) -> (checkpoint: Self)
        ensures
            checkpoint.connections() == pool,
            checkpoint.key() == id@,
            checkpoint.table_name() == "checkpoints"@,
            checkpoint.schema_name() == "penstock"@,
    {
        let text = id.as_str();
        assert(identity::is_identity(text@));
        proof {
            reveal_strlit("checkpoints");
            reveal_strlit("penstock");
        }
        SqlCheckpoint {
            pool,
            pipeline_id: text.to_owned(),
            table: "checkpoints".to_owned(),
            schema: "penstock".to_owned(),
            dialect: PhantomData,
        }
    }

    /// Override the default `checkpoints` table.
    pub fn table(self, table: impl Into<String>) -> (checkpoint: Result<Self, SqlCheckpointError>)
        ensures
            exists|text: String|
                {
                    &&& call_ensures(Into::<String>::into, (table,), text)
                    &&& match checkpoint {
                        Ok(checkpoint) => {
                            &&& is_identifier(text@)
                            &&& checkpoint.connections() == self.connections()
                            &&& checkpoint.key() == self.key()
                            &&& checkpoint.table_name() == text@
                            &&& checkpoint.schema_name() == self.schema_name()
                        },
                        Err(SqlCheckpointError::InvalidIdentifier { kind, identifier }) => {
                            !is_identifier(text@) && kind@ == "table"@ && identifier == text
                        },
                        Err(_) => false,
                    }
                },
    {
        proof {
            use_type_invariant(&self);
        }
        let text: String = table.into();
        match validated_identifier("table", text) {
            Ok(table) => Ok(
                SqlCheckpoint {
                    pool: self.pool,
                    pipeline_id: self.pipeline_id,
                    table,
                    schema: self.schema,
                    dialect: PhantomData,
                },
            ),
            Err(error) => Err(error),
        }
    }

    /// The connection pool.
    pub fn pool(&self) -> (pool: &Po)
        ensures
            *pool == self.connections(),
    {
        &self.pool
    }

    /// What the checkpoint is kept under.
    pub fn pipeline_id(&self) -> (id: &str)
        ensures
            id@ == self.key(),
            is_key(id@),
    {
        proof {
            use_type_invariant(self);
        }
        self.pipeline_id.as_str()
    }

    /// What loading the checkpoint's row came to: a missing row is no checkpoint.
    pub fn loaded<C, F>(row: Result<Option<String>, sqlx_core::Error>, decode: F) -> (loaded:
        Result<Option<C>, SqlCheckpointError>) where
        F: FnOnce(String) -> Result<C, serde_json::Error>,

        requires
            row matches Ok(Some(text)) ==> call_requires(decode, (text,)),
        ensures
            loaded matches Err(error) ==> error is Json || error is Database,
            load::may_load(
                match row {
                    Ok(Some(text)) => Fetched::Found(text),
                    Ok(None) => Fetched::Missing,
                    Err(error) => Fetched::Failed(error),
                },
                decode,
                match loaded {
                    Ok(checkpoint) => Ok(checkpoint),
                    Err(SqlCheckpointError::Json(error)) => Err(LoadFailure::Decode(error)),
                    Err(error) => Err(LoadFailure::Fetch(error->Database_0)),
                },
            ),
    {
        let fetched = match row {
            Ok(Some(text)) => Fetched::Found(text),
            Ok(None) => Fetched::Missing,
            Err(error) => Fetched::Failed(error),
        };
        match load(fetched, decode) {
            Ok(checkpoint) => Ok(checkpoint),
            Err(LoadFailure::Fetch(error)) => Err(SqlCheckpointError::Database(error)),
            Err(LoadFailure::Decode(error)) => Err(SqlCheckpointError::Json(error)),
        }
    }
}

impl<Db, Po: Clone> Clone for SqlCheckpoint<Db, Po> {
    fn clone(&self) -> (copy: Self)
        ensures
            vstd::pervasive::cloned(self.connections(), copy.connections()),
            copy.key() == self.key(),
            copy.table_name() == self.table_name(),
            copy.schema_name() == self.schema_name(),
    {
        proof {
            use_type_invariant(self);
        }
        SqlCheckpoint {
            pool: self.pool.clone(),
            pipeline_id: self.pipeline_id.clone(),
            table: self.table.clone(),
            schema: self.schema.clone(),
            dialect: PhantomData,
        }
    }
}

impl<C, Db, Po> CheckpointStore<C> for SqlCheckpoint<Db, Po> {
    type Error = SqlCheckpointError;
}

/// Three texts, one behind the other.
fn join(first: &str, second: &str, third: &str) -> (text: String)
    ensures
        text@ == first@ + second@ + third@,
{
    let mut text = first.to_owned();
    text.append(second);
    text.append(third);
    text
}

/// A text in double quotation marks.
pub open spec fn double_quoted(name: Seq<char>) -> Seq<char> {
    "\""@ + name + "\""@
}

/// A text in backquotes.
pub open spec fn back_quoted(name: Seq<char>) -> Seq<char> {
    "`"@ + name + "`"@
}

impl<Po> SqlCheckpoint<Postgres, Po> {
    /// Override the default `penstock` PostgreSQL schema.
    pub fn schema(self, schema: impl Into<String>) -> (checkpoint: Result<
        Self,
        SqlCheckpointError,
    >)
        ensures
            exists|text: String|
                {
                    &&& call_ensures(Into::<String>::into, (schema,), text)
                    &&& match checkpoint {
                        Ok(checkpoint) => {
                            &&& is_identifier(text@)
                            &&& checkpoint.connections() == self.connections()
                            &&& checkpoint.key() == self.key()
                            &&& checkpoint.table_name() == self.table_name()
                            &&& checkpoint.schema_name() == text@
                        },
                        Err(SqlCheckpointError::InvalidIdentifier { kind, identifier }) => {
                            !is_identifier(text@) && kind@ == "schema"@ && identifier == text
                        },
                        Err(_) => false,
                    }
                },
    {
        proof {
            use_type_invariant(&self);
        }
        let text: String = schema.into();
        match validated_identifier("schema", text) {
            Ok(schema) => Ok(
                SqlCheckpoint {
                    pool: self.pool,
                    pipeline_id: self.pipeline_id,
                    table: self.table,
                    schema,
                    dialect: PhantomData,
                },
            ),
            Err(error) => Err(error),
        }
    }

    /// The quoted schema and table.
    pub open spec fn qualified(self) -> Seq<char> {
        double_quoted(self.schema_name()) + "."@ + double_quoted(self.table_name())
    }

    /// The quoted schema and table.
    pub fn qualified_table(&self) -> (text: String)
        ensures
            text@ == self.qualified(),
    {
        let mut text = join("\"", self.schema.as_str(), "\"");
        text.append(".");
        text.append(join("\"", self.table.as_str(), "\"").as_str());
        text
    }

    /// Create the schema unless it exists.
    pub fn create_schema(&self) -> (text: String)
        ensures
            text@ == "CREATE SCHEMA IF NOT EXISTS "@ + double_quoted(self.schema_name()),
    {
        let quoted = join("\"", self.schema.as_str(), "\"");
        let text = join("CREATE SCHEMA IF NOT EXISTS ", quoted.as_str(), "");
        proof {
            reveal_strlit("");
            assert(text@ =~= "CREATE SCHEMA IF NOT EXISTS "@ + quoted@);
        }
        text
    }

    /// Create the checkpoint table unless it exists.
    pub fn create_table(&self) -> (text: String)
        ensures
            text@ == "CREATE TABLE IF NOT EXISTS "@ + self.qualified()
                + " (\"pipeline_id\" VARCHAR(255) PRIMARY KEY, \"cursor\" TEXT NOT NULL)"@,
    {
        join(
            "CREATE TABLE IF NOT EXISTS ",
            self.qualified_table().as_str(),
            " (\"pipeline_id\" VARCHAR(255) PRIMARY KEY, \"cursor\" TEXT NOT NULL)",
        )
    }

    /// Read the checkpoint of the pipeline whose key is bound first.
    pub fn select(&self) -> (text: String)
        ensures
            text@ == "SELECT \"cursor\" FROM "@ + self.qualified()
                + " WHERE \"pipeline_id\" = $1"@,
    {
        join(
            "SELECT \"cursor\" FROM ",
            self.qualified_table().as_str(),
            " WHERE \"pipeline_id\" = $1",
        )
    }

    /// Write the checkpoint bound second for the pipeline whose key is bound first.
    pub fn upsert(&self) -> (text: String)
        ensures
            text@ == "INSERT INTO "@ + self.qualified()
                + " (\"pipeline_id\", \"cursor\") VALUES ($1, $2) ON CONFLICT (\"pipeline_id\") DO UPDATE SET \"cursor\" = EXCLUDED.\"cursor\""@,
    {
        join(
            "INSERT INTO ",
            self.qualified_table().as_str(),
            " (\"pipeline_id\", \"cursor\") VALUES ($1, $2) ON CONFLICT (\"pipeline_id\") DO UPDATE SET \"cursor\" = EXCLUDED.\"cursor\"",
        )
    }
}

impl<Po> SqlCheckpoint<MySql, Po> {
    /// The quoted table.
    pub fn quoted_table(&self) -> (text: String)
        ensures
            text@ == back_quoted(self.table_name()),
    {
        join("`", self.table.as_str(), "`")
    }

    /// Create the checkpoint table unless it exists.
    pub fn create_table(&self) -> (text: String)
        ensures
            text@ == "CREATE TABLE IF NOT EXISTS "@ + back_quoted(self.table_name())
                + " (`pipeline_id` VARCHAR(255) PRIMARY KEY, `cursor` LONGTEXT NOT NULL)"@,
    {
        join(
            "CREATE TABLE IF NOT EXISTS ",
            self.quoted_table().as_str(),
            " (`pipeline_id` VARCHAR(255) PRIMARY KEY, `cursor` LONGTEXT NOT NULL)",
        )
    }

    /// Read the checkpoint of the pipeline whose key is bound first.
    pub fn select(&self) -> (text: String)
        ensures
            text@ == "SELECT `cursor` FROM "@ + back_quoted(self.table_name())
                + " WHERE `pipeline_id` = ?"@,
    {
        join("SELECT `cursor` FROM ", self.quoted_table().as_str(), " WHERE `pipeline_id` = ?")
    }

    /// Write the checkpoint bound second for the pipeline whose key is bound first.
    pub fn upsert(&self) -> (text: String)
        ensures
            text@ == "INSERT INTO "@ + back_quoted(self.table_name())
                + " (`pipeline_id`, `cursor`) VALUES (?, ?) ON DUPLICATE KEY UPDATE `cursor` = VALUES(`cursor`)"@,
    {
        join(
            "INSERT INTO ",
            self.quoted_table().as_str(),
            " (`pipeline_id`, `cursor`) VALUES (?, ?) ON DUPLICATE KEY UPDATE `cursor` = VALUES(`cursor`)",
        )
    }
}

impl<Po> SqlCheckpoint<Sqlite, Po> {
    /// The quoted table.
    pub fn quoted_table(&self) -> (text: String)
        ensures
            text@ == double_quoted(self.table_name()),
    {
        join("\"", self.table.as_str(), "\"")
    }

    /// Create the checkpoint table unless it exists.
    pub fn create_table(&self) -> (text: String)
        ensures
            text@ == "CREATE TABLE IF NOT EXISTS "@ + double_quoted(self.table_name())
                + " (\"pipeline_id\" TEXT PRIMARY KEY, \"cursor\" TEXT NOT NULL)"@,
    {
        join(
            "CREATE TABLE IF NOT EXISTS ",
            self.quoted_table().as_str(),
            " (\"pipeline_id\" TEXT PRIMARY KEY, \"cursor\" TEXT NOT NULL)",
        )
    }

    /// Read the checkpoint of the pipeline whose key is bound first.
    pub fn select(&self) -> (text: String)
        ensures
            text@ == "SELECT \"cursor\" FROM "@ + double_quoted(self.table_name())
                + " WHERE \"pipeline_id\" = ?"@,
    {
        join(
            "SELECT \"cursor\" FROM ",
            self.quoted_table().as_str(),
            " WHERE \"pipeline_id\" = ?",
        )
    }

    /// Write the checkpoint bound second for the pipeline whose key is bound first.
    pub fn upsert(&self) -> (text: String)
        ensures
            text@ == "INSERT INTO "@ + double_quoted(self.table_name())
                + " (\"pipeline_id\", \"cursor\") VALUES (?, ?) ON CONFLICT (\"pipeline_id\") DO UPDATE SET \"cursor\" = EXCLUDED.\"cursor\""@,
    {
        join(
            "INSERT INTO ",
            self.quoted_table().as_str(),
            " (\"pipeline_id\", \"cursor\") VALUES (?, ?) ON CONFLICT (\"pipeline_id\") DO UPDATE SET \"cursor\" = EXCLUDED.\"cursor\"",
        )
    }
}

/// A portable identifier is made of ASCII letters, digits and underscores, given here by their code
/// points, and no digit stands in front.
pub proof fn identifiers_are_ascii_words(text: Seq<char>)
    ensures
        is_identifier(text) <==> {
            &&& text.len() > 0
            &&& !(48 <= text[0] as int <= 57)
            &&& forall|i: int|
                #![trigger text[i]]
                0 <= i < text.len() ==> {
                    let code = text[i] as int;
                    ||| 48 <= code <= 57
                    ||| 65 <= code <= 90
                    ||| 97 <= code <= 122
                    ||| code == 95
                }
        },
{
    if is_identifier(text) {
        assert forall|i: int| #![trigger text[i]] 0 <= i < text.len() implies {
            let code = text[i] as int;
            ||| 48 <= code <= 57
            ||| 65 <= code <= 90
            ||| 97 <= code <= 122
            ||| code == 95
        } by {
            assert(continues_identifier(text[i]));
        }
    }
}

/// A quoted name is the name between two quotation marks of the dialect, and two names that are quoted
/// alike are the same.
pub proof fn quoting_keeps_names(name: Seq<char>, other: Seq<char>)
    ensures
        double_quoted(name).len() == name.len() + 2,
        double_quoted(name)[0] == '"' && double_quoted(name).last() == '"',
        double_quoted(name).subrange(1, name.len() as int + 1) == name,
        back_quoted(name).len() == name.len() + 2,
        back_quoted(name)[0] == '`' && back_quoted(name).last() == '`',
        back_quoted(name).subrange(1, name.len() as int + 1) == name,
        double_quoted(name) == double_quoted(other) ==> name == other,
        back_quoted(name) == back_quoted(other) ==> name == other,
{
    reveal_strlit("\"");
    reveal_strlit("`");
    assert(double_quoted(name).subrange(1, name.len() as int + 1) =~= name);
    assert(back_quoted(name).subrange(1, name.len() as int + 1) =~= name);
    assert(double_quoted(other).subrange(1, other.len() as int + 1) =~= other);
    assert(back_quoted(other).subrange(1, other.len() as int + 1) =~= other);
}

/// A qualified table is the quoted schema, a dot, and the quoted table.
pub proof fn tables_lie_in_their_schema<Po>(checkpoint: SqlCheckpoint<Postgres, Po>)
    ensures
        ({
            let (schema, table) = (checkpoint.schema_name(), checkpoint.table_name());
            let text = checkpoint.qualified();
            &&& text.len() == schema.len() + table.len() + 5
            &&& text.take(schema.len() as int + 2) == double_quoted(schema)
            &&& text[schema.len() as int + 2] == '.'
            &&& text.skip(schema.len() as int + 3) == double_quoted(table)
        }),
{
    reveal_strlit(".");
    let (schema, table) = (checkpoint.schema_name(), checkpoint.table_name());
    quoting_keeps_names(schema, table);
    quoting_keeps_names(table, schema);
    let text = checkpoint.qualified();
    assert(text.take(schema.len() as int + 2) =~= double_quoted(schema));
    assert(text.skip(schema.len() as int + 3) =~= double_quoted(table));
}

/// A text of ASCII characters keys a checkpoint exactly where it has 1 to 255 of them; so does every
/// pipeline identity.
pub proof fn keys_are_short(text: Seq<char>)
    ensures
        vstd::utf8::is_ascii_chars(text) ==> (is_key(text) <==> 1 <= text.len() <= 255),
        identity::is_identity(text) ==> is_key(text),
{
    if vstd::utf8::is_ascii_chars(text) {
        vstd::utf8::is_ascii_chars_encode_utf8(text);
    }
}

} // verus!
