//! The resource store: one connection to a PostgreSQL database, validated
//! inserts, paginated substring search and random sampling.

use vstd::prelude::*;
use vstd::string::*;
use crate::resource::Resource;
use crate::text::{decimal, decimal_text, strip_quotes, without_quotes};

verus! {

#[verifier::external_type_specification]
#[verifier::external_body]
pub struct ExClient(postgres::Client);

#[verifier::external_type_specification]
#[verifier::external_body]
pub struct ExRow(postgres::Row);

#[verifier::external_type_specification]
#[verifier::external_body]
pub struct ExPgError(postgres::Error);

/// Relies on `postgres::Client::execute`: runs the statement with the six
/// values as its parameters `$1` to `$6`, in this order.
#[verifier::external_body]
fn execute_insert(
    db: &mut postgres::Client,
    statement: &str,
    user_id: &str,
    channel_id: &str,
    url: &str,
    description: &str,
    type_id: i32,
    shash: &str,
) -> (res: Result<u64, postgres::Error>) {
    db.execute(statement, &[&user_id, &channel_id, &url, &description, &type_id, &shash])
}

/// Relies on `postgres::Client::query`: runs a query whose one parameter
/// `$1` is the given text, and hands back the rows.
#[verifier::external_body]
fn query_with_text(
    db: &mut postgres::Client,
    query: &str,
    param: &str,
) -> (res: Result<Vec<postgres::Row>, postgres::Error>) {
    db.query(query, &[&param])
}

/// Relies on `postgres::Client::batch_execute`: runs the statements.
#[verifier::external_body]
fn batch_execute(db: &mut postgres::Client, statements: &str) -> (res: Result<
    (),
    postgres::Error,
>) {
    db.batch_execute(statements)
}

/// Relies on `postgres::Row::try_get`: the text in the named column, or
/// `None` where there is no such column or it holds no text (NULL included).
#[verifier::external_body]
fn column_text(row: &postgres::Row, column: &str) -> (res: Option<String>) {
    row.try_get::<&str, String>(column).ok()
}

/// Why a call to the store failed.
#[derive(Debug, PartialEq, Eq, Structural)]
pub enum StoreError {
    /// The backend could not run the statement.
    Query,
    /// A returned row lacked one of the expected text columns.
    Row,
}

/// The search statement, before its paging clause.
pub const SEARCH_SQL: &'static str = "SELECT * FROM resources WHERE description LIKE $1 ORDER BY id DESC";

/// The sampling statement: one random matching row.
pub const SAMPLE_SQL: &'static str = "SELECT * FROM resources WHERE description LIKE $1 order by random() limit 1";

/// The insert statement of all six fields of a resource.
pub const INSERT_SQL: &'static str = "INSERT INTO public.resources(user_id, channel_id, url, description, type_id, shash) VALUES ($1, $2, $3, $4, $5, $6);";

/// A character that LIKE reads as a wildcard or as its escape.
pub open spec fn is_like_special(c: char) -> bool {
    c == '%' || c == '_' || c == '\\'
}

/// `term` with a backslash before each LIKE special character, so that LIKE
/// matches it literally.
pub open spec fn like_escaped(term: Seq<char>) -> Seq<char>
    decreases term.len(),
{
    if term.len() == 0 {
        Seq::empty()
    } else if is_like_special(term.last()) {
        like_escaped(term.drop_last()) + seq!['\\', term.last()]
    } else {
        like_escaped(term.drop_last()).push(term.last())
    }
}

/// The LIKE pattern that matches descriptions containing `term`.
pub open spec fn like_pattern_of(term: Seq<char>) -> Seq<char> {
    seq!['%'] + like_escaped(term) + seq!['%']
}

/// The search statement for one page: `page * limit` rows skipped, `limit`
/// rows returned, newest first.
pub open spec fn search_sql_of(limit: u16, page: u16) -> Seq<char> {
    SEARCH_SQL@ + " OFFSET "@ + decimal((page * limit) as nat) + " LIMIT "@ + decimal(
        limit as nat,
    )
}

/// A resource as read back from a row: the four text columns, the url
/// without quote characters, and no fingerprint or type.
pub open spec fn read_back(
    r: Resource,
    user_id: Seq<char>,
    channel_id: Seq<char>,
    url: Seq<char>,
    description: Seq<char>,
) -> bool {
    &&& r.user_id@ == user_id
    &&& r.channel_id@ == channel_id
    &&& r.url@ == without_quotes(url)
    &&& r.description@ == description
    &&& r.shash@.len() == 0
    &&& r.type_id == 0
}

/// `term` with each LIKE special character escaped.
pub fn escape_like(term: &str) -> (r: String)
    ensures
        r@ == like_escaped(term@),
{
    let n = term.unicode_len();
    let mut out = String::new();
    let mut start: usize = 0;
    let mut i: usize = 0;
    while i < n
        invariant
            n == term@.len(),
            start <= i <= n,
            out@ + term@.subrange(start as int, i as int) == like_escaped(
                term@.subrange(0, i as int),
            ),
        decreases n - i,
    {
        let c = term.get_char(i);
        let ghost prefix = term@.subrange(0, i as int + 1);
        assert(prefix.drop_last() =~= term@.subrange(0, i as int));
        assert(prefix.last() == c);
        let ghost before = out@ + term@.subrange(start as int, i as int);
        if c == '%' || c == '_' || c == '\\' {
            let segment = term.substring_char(start, i);
            out.append(segment);
            out.append("\\");
            proof {
                reveal_strlit("\\");
            }
            start = i;
            assert(term@.subrange(start as int, i as int + 1) =~= seq![c]);
            assert(out@ + term@.subrange(start as int, i as int + 1) =~= before + seq!['\\', c]);
        } else {
            assert(term@.subrange(start as int, i as int + 1) =~= term@.subrange(
                start as int,
                i as int,
            ).push(c));
            assert(out@ + term@.subrange(start as int, i as int + 1) =~= before.push(c));
        }
        i = i + 1;
    }
    let rest = term.substring_char(start, n);
    out.append(rest);
    assert(term@.subrange(0, n as int) =~= term@);
    out
}

/// The LIKE pattern for `term`.
pub fn like_pattern(term: &str) -> (r: String)
    ensures
        r@ == like_pattern_of(term@),
{
    let mut r = String::from_str("%");
    r.append(escape_like(term).as_str());
    r.append("%");
    proof {
        reveal_strlit("%");
    }
    assert(r@ =~= like_pattern_of(term@));
    r
}

/// The search statement for page `page` of `limit` rows.
pub fn search_sql(limit: u16, page: u16) -> (r: String)
    ensures
        r@ == search_sql_of(limit, page),
{
    assert(page as u64 * limit as u64 <= 0xffff * 0xffff) by (nonlinear_arith)
        requires
            page <= 0xffff,
            limit <= 0xffff,
    ;
    let skip: u64 = page as u64 * limit as u64;
    let mut r = String::from_str(SEARCH_SQL);
    r.append(" OFFSET ");
    r.append(decimal_text(skip).as_str());
    r.append(" LIMIT ");
    r.append(decimal_text(limit as u64).as_str());
    r
}

/// The resource that a row with these four columns stands for.
pub fn resource_from_columns(
    user_id: String,
    channel_id: String,
    url: String,
    description: String,
) -> (r: Resource)
    ensures
        read_back(r, user_id@, channel_id@, url@, description@),
{
    Resource {
        user_id,
        channel_id,
        url: strip_quotes(url.as_str()),
        description,
        shash: String::new(),
        type_id: 0,
    }
}

/// The four text columns of a returned row; `None` where the row has no
/// such text.
pub struct RowText {
    pub user_id: Option<String>,
    pub channel_id: Option<String>,
    pub url: Option<String>,
    pub description: Option<String>,
}

/// The row has all four texts.
pub open spec fn row_complete(t: RowText) -> bool {
    t.user_id is Some && t.channel_id is Some && t.url is Some && t.description is Some
}

/// `r` is the complete row `t` read back.
pub open spec fn read_back_row(r: Resource, t: RowText) -> bool {
    read_back(r, t.user_id->0@, t.channel_id->0@, t.url->0@, t.description->0@)
}

/// The first `cap` of `rows`, in order, each read back; or, where one of
/// them lacks a text, the row error.
pub open spec fn rows_kept(r: Result<Vec<Resource>, StoreError>, rows: Seq<RowText>, cap: nat) -> bool {
    let m = if rows.len() < cap { rows.len() } else { cap };
    &&& r is Ok <==> forall|i: int| 0 <= i < m ==> row_complete(#[trigger] rows[i])
    &&& r matches Ok(v) ==> {
        &&& v@.len() == m
        &&& forall|i: int| 0 <= i < m ==> read_back_row(#[trigger] v@[i], rows[i])
    }
    &&& r matches Err(e) ==> e == StoreError::Row
}

fn row_text(row: &postgres::Row) -> (r: RowText) {
    RowText {
        user_id: column_text(row, "user_id"),
        channel_id: column_text(row, "channel_id"),
        url: column_text(row, "url"),
        description: column_text(row, "description"),
    }
}

/// Reads back the first `cap` rows, in order.
pub fn resources_from_rows(rows: &Vec<RowText>, cap: usize) -> (r: Result<
    Vec<Resource>,
    StoreError,
>)
    ensures
        rows_kept(r, rows@, cap as nat),
{
    let mut out: Vec<Resource> = Vec::new();
    let mut i: usize = 0;
    while i < rows.len() && i < cap
        invariant
            i <= rows@.len(),
            i <= cap,
            out@.len() == i,
            forall|k: int| 0 <= k < i ==> row_complete(#[trigger] rows@[k]),
            forall|k: int| 0 <= k < i ==> read_back_row(#[trigger] out@[k], rows@[k]),
        decreases rows.len() - i,
    {
        let t = &rows[i];
        match (&t.user_id, &t.channel_id, &t.url, &t.description) {
            (Some(user_id), Some(channel_id), Some(url), Some(description)) => {
                let res = resource_from_columns(
                    user_id.clone(),
                    channel_id.clone(),
                    url.clone(),
                    description.clone(),
                );
                out.push(res);
            },
            _ => {
                return Err(StoreError::Row);
            },
        }
        i = i + 1;
    }
    Ok(out)
}

/// One call that the store made to the backend, with what came back.
pub enum Sent {
    /// An insert statement and its six parameters; `accepted` where the
    /// backend ran it without error.
    Insert {
        statement: Seq<char>,
        user_id: Seq<char>,
        channel_id: Seq<char>,
        url: Seq<char>,
        description: Seq<char>,
        type_id: i32,
        shash: Seq<char>,
        accepted: bool,
    },
    /// A query with its one text parameter; the texts of the rows
    /// returned, in order, or `None` where the backend could not run it.
    Query { statement: Seq<char>, param: Seq<char>, rows: Option<Seq<RowText>> },
    /// Statements run as one batch; `ok` where the backend ran them.
    Batch { statement: Seq<char>, ok: bool },
}

/// The record of an insert of `r` by `statement`.
pub open spec fn insert_of(statement: Seq<char>, r: Resource, accepted: bool) -> Sent {
    Sent::Insert {
        statement,
        user_id: r.user_id@,
        channel_id: r.channel_id@,
        url: r.url@,
        description: r.description@,
        type_id: r.type_id,
        shash: r.shash@,
        accepted,
    }
}

/// What a query hands back, given the rows that the backend returned (or
/// `None` where it could not run the query).
pub open spec fn kept_rows(
    r: Result<Vec<Resource>, StoreError>,
    rows: Option<Seq<RowText>>,
    cap: nat,
) -> bool {
    match rows {
        None => r matches Err(StoreError::Query),
        Some(rs) => rows_kept(r, rs, cap),
    }
}

/// The statements that create the tables and indexes, in order.
pub open spec fn schema_sql() -> Seq<Seq<char>> {
    seq![
        "CREATE TABLE channels (pk_channels integer NOT NULL, channel_id bigint NOT NULL, type integer NOT NULL);"@,
        "ALTER TABLE channels ADD CONSTRAINT pk_channels PRIMARY KEY (pk_channels);"@,
        "CREATE TABLE resources (id serial NOT NULL, user_id varchar(255) NOT NULL, channel_id varchar(255) NOT NULL, url varchar(255), description text, type_id integer NOT NULL, shash varchar(255));"@,
        "ALTER TABLE resources ADD CONSTRAINT pk_resources PRIMARY KEY (id);"@,
        "CREATE TABLE types (pk_types integer NOT NULL, type varchar(255) NOT NULL);"@,
        "ALTER TABLE types ADD CONSTRAINT pk_types PRIMARY KEY (pk_types);"@,
        "CREATE INDEX ix_channels_ ON channels (channel_id);"@,
        "CREATE INDEX ix_resources_description ON resources (description);"@,
        "CREATE INDEX ix_resources_type ON resources (type_id);"@,
        "CREATE INDEX ix_resources_user ON resources (user_id);"@,
    ]
}

/// A run of the schema statements: sent in order, each after the previous
/// one succeeded, all of them where `done`, else up to the first failure.
pub open spec fn schema_run(run: Seq<Sent>, done: bool) -> bool {
    &&& run.len() <= schema_sql().len()
    &&& done ==> run.len() == schema_sql().len()
    &&& !done ==> run.len() > 0
    &&& forall|k: int|
        0 <= k < run.len() ==> #[trigger] run[k] == (Sent::Batch {
            statement: schema_sql()[k],
            ok: k < run.len() - 1 || done,
        })
}

/// The schema statements, in order.
pub fn schema_statements() -> (r: Vec<&'static str>)
    ensures
        r@.len() == schema_sql().len(),
        forall|k: int| 0 <= k < r@.len() ==> (#[trigger] r@[k])@ == schema_sql()[k],
{
    vec![
        "CREATE TABLE channels (pk_channels integer NOT NULL, channel_id bigint NOT NULL, type integer NOT NULL);",
        "ALTER TABLE channels ADD CONSTRAINT pk_channels PRIMARY KEY (pk_channels);",
        "CREATE TABLE resources (id serial NOT NULL, user_id varchar(255) NOT NULL, channel_id varchar(255) NOT NULL, url varchar(255), description text, type_id integer NOT NULL, shash varchar(255));",
        "ALTER TABLE resources ADD CONSTRAINT pk_resources PRIMARY KEY (id);",
        "CREATE TABLE types (pk_types integer NOT NULL, type varchar(255) NOT NULL);",
        "ALTER TABLE types ADD CONSTRAINT pk_types PRIMARY KEY (pk_types);",
        "CREATE INDEX ix_channels_ ON channels (channel_id);",
        "CREATE INDEX ix_resources_description ON resources (description);",
        "CREATE INDEX ix_resources_type ON resources (type_id);",
        "CREATE INDEX ix_resources_user ON resources (user_id);",
    ]
}

/// The store: one owned connection, used by one caller at a time, and the
/// record of every call it has made through it.
pub struct DiscordDatabase {
    db: postgres::Client,
    sent: Ghost<Seq<Sent>>,
}

impl DiscordDatabase {
    /// The connection that the store owns.
    pub closed spec fn connection(&self) -> postgres::Client {
        self.db
    }

    /// The calls made to the backend so far, oldest first.
    pub closed spec fn sent(&self) -> Seq<Sent> {
        self.sent@
    }

    /// Wraps an established connection.
    pub fn new(db: postgres::Client) -> (r: Self)
        ensures
            r.connection() == db,
            r.sent() == Seq::<Sent>::empty(),
    {
        DiscordDatabase { db, sent: Ghost(Seq::empty()) }
    }

    /// Stores the resource as one new row. A resource without url or
    /// description is refused with `false` and the store is left alone.
    /// Otherwise its six fields are sent with `INSERT_SQL`, with no check
    /// for a duplicate fingerprint, and the result says whether the
    /// backend took the row.
    pub fn insert_resource(&mut self, resource: Resource) -> (r: bool)
        ensures
            !resource.insertable() ==> !r && *final(self) == *old(self),
            resource.insertable() ==> final(self).sent() == old(self).sent().push(
                insert_of(INSERT_SQL@, resource, r),
            ),
    {
        if !resource.is_insertable() {
            return false;
        }
        let res = execute_insert(
            &mut self.db,
            INSERT_SQL,
            resource.user_id.as_str(),
            resource.channel_id.as_str(),
            resource.url.as_str(),
            resource.description.as_str(),
            resource.type_id,
            resource.shash.as_str(),
        );
        let accepted = res.is_ok();
        self.sent = Ghost(self.sent@.push(insert_of(INSERT_SQL@, resource, accepted)));
        accepted
    }

    /// Runs `query` with `pattern` and reads back at most `cap` rows.
    fn query_resources(&mut self, query: &str, pattern: &str, cap: usize) -> (r: Result<
        Vec<Resource>,
        StoreError,
    >)
        ensures
            final(self).sent().len() == old(self).sent().len() + 1,
            final(self).sent().drop_last() == old(self).sent(),
            final(self).sent().last() matches Sent::Query { statement, param, rows } && {
                &&& statement == query@
                &&& param == pattern@
                &&& kept_rows(r, rows, cap as nat)
            },
    {
        match query_with_text(&mut self.db, query, pattern) {
            Ok(rows) => {
                let mut texts: Vec<RowText> = Vec::new();
                let mut i: usize = 0;
                while i < rows.len()
                    invariant
                        i <= rows@.len(),
                    decreases rows.len() - i,
                {
                    texts.push(row_text(&rows[i]));
                    i = i + 1;
                }
                self.sent = Ghost(
                    self.sent@.push(
                        Sent::Query { statement: query@, param: pattern@, rows: Some(texts@) },
                    ),
                );
                assert(self.sent@.drop_last() =~= old(self).sent@);
                resources_from_rows(&texts, cap)
            },
            Err(_) => {
                self.sent = Ghost(
                    self.sent@.push(Sent::Query { statement: query@, param: pattern@, rows: None }),
                );
                assert(self.sent@.drop_last() =~= old(self).sent@);
                Err(StoreError::Query)
            },
        }
    }

    /// Page `page` (from zero) of `limit` resources whose description holds
    /// `description`, newest first: the backend is asked with
    /// `search_sql(limit, page)` and the pattern `%description%`, and every
    /// row it returns is kept, in order, read back.
    pub fn select_resources(&mut self, description: &str, limit: u16, page: u16) -> (r: Result<
        Vec<Resource>,
        StoreError,
    >)
        ensures
            final(self).sent().len() == old(self).sent().len() + 1,
            final(self).sent().drop_last() == old(self).sent(),
            final(self).sent().last() matches Sent::Query { statement, param, rows } && {
                &&& statement == search_sql_of(limit, page)
                &&& param == like_pattern_of(description@)
                &&& kept_rows(r, rows, limit as nat)
            },
    {
        let pattern = like_pattern(description);
        let query = search_sql(limit, page);
        self.query_resources(query.as_str(), pattern.as_str(), limit as usize)
    }

    /// At most one resource, picked at random by the backend among those
    /// whose description holds `description`: the backend is asked with
    /// `SAMPLE_SQL` and the pattern `%description%`, and the row it returns,
    /// if any, is kept, read back.
    pub fn select_random_resource(&mut self, description: &str) -> (r: Result<
        Vec<Resource>,
        StoreError,
    >)
        ensures
            final(self).sent().len() == old(self).sent().len() + 1,
            final(self).sent().drop_last() == old(self).sent(),
            final(self).sent().last() matches Sent::Query { statement, param, rows } && {
                &&& statement == SAMPLE_SQL@
                &&& param == like_pattern_of(description@)
                &&& kept_rows(r, rows, 1)
            },
    {
        let pattern = like_pattern(description);
        self.query_resources(SAMPLE_SQL, pattern.as_str(), 1)
    }

    /// Creates the tables and indexes: the schema statements are run in
    /// order, and the first that fails stops the run with an error.
    pub fn _startup(&mut self) -> (r: Result<(), StoreError>)
        ensures
            final(self).sent().subrange(0, old(self).sent().len() as int) == old(self).sent(),
            schema_run(
                final(self).sent().subrange(
                    old(self).sent().len() as int,
                    final(self).sent().len() as int,
                ),
                r is Ok,
            ),
            r is Err ==> r == Err::<(), StoreError>(StoreError::Query),
    {
        let instructions = schema_statements();
        let ghost start = self.sent@;
        let mut i: usize = 0;
        while i < instructions.len()
            invariant
                i <= instructions@.len(),
                instructions@.len() == schema_sql().len(),
                forall|k: int|
                    0 <= k < instructions@.len() ==> (#[trigger] instructions@[k])@
                        == schema_sql()[k],
                start == old(self).sent@,
                self.sent@.len() == start.len() + i,
                self.sent@.subrange(0, start.len() as int) == start,
                forall|k: int|
                    0 <= k < i ==> #[trigger] self.sent@[start.len() + k] == (Sent::Batch {
                        statement: schema_sql()[k],
                        ok: true,
                    }),
            decreases instructions.len() - i,
        {
            let statement = instructions[i];
            let ok = batch_execute(&mut self.db, statement).is_ok();
            let ghost before = self.sent@;
            self.sent = Ghost(self.sent@.push(Sent::Batch { statement: statement@, ok }));
            assert(self.sent@.subrange(0, start.len() as int) =~= before.subrange(
                0,
                start.len() as int,
            ));
            if !ok {
                let ghost run = self.sent@.subrange(start.len() as int, self.sent@.len() as int);
                assert forall|k: int| 0 <= k < run.len() implies #[trigger] run[k] == (Sent::Batch {
                    statement: schema_sql()[k],
                    ok: k < run.len() - 1 || false,
                }) by {
                    assert(run[k] == self.sent@[start.len() + k]);
                }
                return Err(StoreError::Query);
            }
            i = i + 1;
        }
        let ghost run = self.sent@.subrange(start.len() as int, self.sent@.len() as int);
        assert forall|k: int| 0 <= k < run.len() implies #[trigger] run[k] == (Sent::Batch {
            statement: schema_sql()[k],
            ok: k < run.len() - 1 || true,
        }) by {
            assert(run[k] == self.sent@[start.len() + k]);
        }
        Ok(())
    }
}

} // verus!
