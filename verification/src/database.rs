//! What is stored: the metadata of files, and the settings.

use vstd::prelude::*;

use crate::config;
use crate::config::{AppSettingsMap, AppSettingsView};
use crate::outside;
use crate::routes::api_upload;
use crate::text;

verus! {

// ---------------------------------------------------------------------------------------------
// The database file and its tables
// ---------------------------------------------------------------------------------------------

/// The name of the database in a directory.
pub open spec fn path_in(data_dir: Seq<char>) -> Seq<char> {
    if data_dir.len() == 0 || data_dir.last() == '/' {
        data_dir + "file_metadata.db"@
    } else {
        data_dir + seq!['/'] + "file_metadata.db"@
    }
}

/// The path of the database in the data directory.
pub fn db_path(data_dir: &str) -> (r: String)
    ensures
        r@ == path_in(data_dir@),
{
    let mut r = String::from_str(data_dir);
    let n: usize = data_dir.unicode_len();
    if n > 0 && data_dir.get_char(n - 1) != '/' {
        r.push('/');
        assert(r@ =~= data_dir@ + seq!['/']);
    }
    r.append("file_metadata.db");
    r
}

/// What is done where a statement fails.
#[derive(Debug, PartialEq)]
pub enum OnError {
    /// The program stops with this message.
    Stop(String),
    /// This message goes to the log, before the error.
    Log(String),
    /// Nothing.
    Ignore,
}

pub enum OnErrorView {
    Stop(Seq<char>),
    Log(Seq<char>),
    Ignore,
}

/// A statement that sets up the database.
#[derive(Debug, PartialEq)]
pub struct Statement {
    pub sql: String,
    pub on_error: OnError,
}

pub struct StatementView {
    pub sql: Seq<char>,
    pub on_error: OnErrorView,
}

impl View for OnError {
    type V = OnErrorView;

    open spec fn view(&self) -> OnErrorView {
        match *self {
            OnError::Stop(s) => OnErrorView::Stop(s@),
            OnError::Log(s) => OnErrorView::Log(s@),
            OnError::Ignore => OnErrorView::Ignore,
        }
    }
}

impl View for Statement {
    type V = StatementView;

    open spec fn view(&self) -> StatementView {
        StatementView { sql: self.sql@, on_error: self.on_error@ }
    }
}

/// How far setting up the database has come.
#[derive(Debug, PartialEq)]
pub enum InitStage {
    /// The database is open.
    Opened,
    /// The table of files is there, with these columns.
    FilesTable(Vec<String>),
    /// The table of settings is there, with these columns.
    SettingsTable(Vec<String>),
}

/// A statement that must succeed.
pub open spec fn needed(sql: Seq<char>, message: Seq<char>) -> StatementView {
    StatementView { sql, on_error: OnErrorView::Stop(message) }
}

/// The statement that adds a column where it is missing.
pub open spec fn column_added(
    columns: Seq<Seq<char>>,
    column: Seq<char>,
    sql: Seq<char>,
    message: Seq<char>,
) -> Seq<StatementView> {
    if columns.contains(column) {
        Seq::empty()
    } else {
        Seq::empty().push(StatementView { sql, on_error: OnErrorView::Log(message) })
    }
}

/// The table of files.
pub open spec fn files_table() -> Seq<char> {
    "CREATE TABLE IF NOT EXISTS files (
            id INTEGER PRIMARY KEY AUTOINCREMENT,
            filename TEXT NOT NULL,
            file_id TEXT NOT NULL UNIQUE,
            filesize INTEGER NOT NULL,
            upload_date TIMESTAMP DEFAULT CURRENT_TIMESTAMP,
            short_id TEXT UNIQUE,
            share_password TEXT
        );"@
}

/// The table of settings, which has one row.
pub open spec fn settings_table() -> Seq<char> {
    "CREATE TABLE IF NOT EXISTS app_settings (
            id INTEGER PRIMARY KEY CHECK (id = 1),
            bot_token TEXT,
            channel_name TEXT,
            pass_word TEXT,
            picgo_api_key TEXT,
            base_url TEXT,
            session_token TEXT
        );"@
}

/// The statements that come next when the database is set up. A database of an earlier layout is
/// brought to this one, and one that has it already stays as it is.
pub open spec fn init_statements(stage: InitStage) -> Seq<StatementView> {
    match stage {
        InitStage::Opened => Seq::empty().push(
            needed(files_table(), "Failed to create files table"@),
        ),
        InitStage::FilesTable(columns) => {
            let c = text::strings_view(columns@);
            column_added(
                c,
                "short_id"@,
                "ALTER TABLE files ADD COLUMN short_id TEXT"@,
                "Migration warning: Failed to add short_id column"@,
            ) + column_added(
                c,
                "share_password"@,
                "ALTER TABLE files ADD COLUMN share_password TEXT"@,
                "Migration warning: Failed to add share_password column"@,
            ) + Seq::empty().push(
                StatementView {
                    sql: "CREATE UNIQUE INDEX IF NOT EXISTS idx_files_short_id ON files(short_id);"@,
                    on_error: OnErrorView::Ignore,
                },
            ).push(needed(settings_table(), "Failed to create app_settings table"@)).push(
                needed(
                    "INSERT OR IGNORE INTO app_settings (id) VALUES (1)"@,
                    "Failed to init app_settings row"@,
                ),
            )
        },
        InitStage::SettingsTable(columns) => column_added(
            text::strings_view(columns@),
            "session_token"@,
            "ALTER TABLE app_settings ADD COLUMN session_token TEXT"@,
            "Migration warning: Failed to add session_token column"@,
        ),
    }
}

/// What a list of statements holds.
pub open spec fn statements_view(s: Seq<Statement>) -> Seq<StatementView> {
    s.map_values(|x: Statement| x@)
}

fn push_statement(list: &mut Vec<Statement>, sql: &str, on_error: OnError)
    ensures
        statements_view(final(list)@) == statements_view(old(list)@).push(
            StatementView { sql: sql@, on_error: on_error@ },
        ),
{
    list.push(Statement { sql: String::from_str(sql), on_error });
    assert(statements_view(list@) =~= statements_view(old(list)@).push(
        StatementView { sql: sql@, on_error: on_error@ },
    ));
}

fn has_column(columns: &Vec<String>, column: &str) -> (r: bool)
    ensures
        r == text::strings_view(columns@).contains(column@),
{
    let ghost c = text::strings_view(columns@);
    let mut i: usize = 0;
    while i < columns.len()
        invariant
            c == text::strings_view(columns@),
            i <= columns@.len(),
            forall|j: int| 0 <= j < i ==> c[j] != column@,
        decreases columns@.len() - i,
    {
        if text::str_eq(columns[i].as_str(), column) {
            assert(c[i as int] == column@);
            return true;
        }
        i = i + 1;
    }
    false
}

/// The statements that come next when the database is set up.
pub fn init_db(stage: &InitStage) -> (r: Vec<Statement>)
    ensures
        statements_view(r@) == init_statements(*stage),
{
    let mut r: Vec<Statement> = Vec::new();
    assert(statements_view(r@) =~= Seq::<StatementView>::empty());
    match stage {
        InitStage::Opened => {
            push_statement(
                &mut r,
                "CREATE TABLE IF NOT EXISTS files (
            id INTEGER PRIMARY KEY AUTOINCREMENT,
            filename TEXT NOT NULL,
            file_id TEXT NOT NULL UNIQUE,
            filesize INTEGER NOT NULL,
            upload_date TIMESTAMP DEFAULT CURRENT_TIMESTAMP,
            short_id TEXT UNIQUE,
            share_password TEXT
        );",
                OnError::Stop(String::from_str("Failed to create files table")),
            );
        },
        InitStage::FilesTable(columns) => {
            if !has_column(columns, "short_id") {
                push_statement(
                    &mut r,
                    "ALTER TABLE files ADD COLUMN short_id TEXT",
                    OnError::Log(String::from_str("Migration warning: Failed to add short_id column")),
                );
            }
            if !has_column(columns, "share_password") {
                push_statement(
                    &mut r,
                    "ALTER TABLE files ADD COLUMN share_password TEXT",
                    OnError::Log(
                        String::from_str("Migration warning: Failed to add share_password column"),
                    ),
                );
            }
            push_statement(
                &mut r,
                "CREATE UNIQUE INDEX IF NOT EXISTS idx_files_short_id ON files(short_id);",
                OnError::Ignore,
            );
            push_statement(
                &mut r,
                "CREATE TABLE IF NOT EXISTS app_settings (
            id INTEGER PRIMARY KEY CHECK (id = 1),
            bot_token TEXT,
            channel_name TEXT,
            pass_word TEXT,
            picgo_api_key TEXT,
            base_url TEXT,
            session_token TEXT
        );",
                OnError::Stop(String::from_str("Failed to create app_settings table")),
            );
            push_statement(
                &mut r,
                "INSERT OR IGNORE INTO app_settings (id) VALUES (1)",
                OnError::Stop(String::from_str("Failed to init app_settings row")),
            );
        },
        InitStage::SettingsTable(columns) => {
            if !has_column(columns, "session_token") {
                push_statement(
                    &mut r,
                    "ALTER TABLE app_settings ADD COLUMN session_token TEXT",
                    OnError::Log(
                        String::from_str("Migration warning: Failed to add session_token column"),
                    ),
                );
            }
        },
    }
    assert(statements_view(r@) =~= init_statements(*stage));
    r
}

// ---------------------------------------------------------------------------------------------
// Short identifiers
// ---------------------------------------------------------------------------------------------

/// The characters of short identifiers.
pub open spec fn alphabet() -> Seq<char> {
    "abcdefghijklmnopqrstuvwxyzABCDEFGHIJKLMNOPQRSTUVWXYZ0123456789"@
}

/// A text of this many characters of the alphabet.
pub open spec fn is_short_id(s: Seq<char>, length: int) -> bool {
    &&& s.len() == length
    &&& forall|i: int| 0 <= i < s.len() ==> alphabet().contains(#[trigger] s[i])
}

/// The short identifier whose characters stand at these places of the alphabet.
pub fn short_id_from_places(places: &Vec<usize>) -> (r: String)
    requires
        forall|i: int| 0 <= i < places@.len() ==> (#[trigger] places@[i]) < 62,
    ensures
        r@ == Seq::new(places@.len(), |i: int| alphabet()[places@[i] as int]),
        is_short_id(r@, places@.len() as int),
{
    let letters = text::to_chars("abcdefghijklmnopqrstuvwxyzABCDEFGHIJKLMNOPQRSTUVWXYZ0123456789");
    proof {
        reveal_strlit("abcdefghijklmnopqrstuvwxyzABCDEFGHIJKLMNOPQRSTUVWXYZ0123456789");
    }
    let mut r = String::new();
    let mut i: usize = 0;
    while i < places.len()
        invariant
            letters@ == alphabet(),
            letters@.len() == 62,
            forall|j: int| 0 <= j < places@.len() ==> (#[trigger] places@[j]) < 62,
            i <= places@.len(),
            r@.len() == i,
            forall|j: int| 0 <= j < i ==> (#[trigger] r@[j]) == alphabet()[places@[j] as int],
        decreases places@.len() - i,
    {
        r.push(letters[places[i]]);
        i = i + 1;
    }
    assert(r@ =~= Seq::new(places@.len(), |i: int| alphabet()[places@[i] as int]));
    r
}

/// A random short identifier.
pub fn generate_short_id(length: usize) -> (r: String)
    ensures
        is_short_id(r@, length as int),
{
    let mut places: Vec<usize> = Vec::new();
    let mut i: usize = 0;
    while i < length
        invariant
            i <= length,
            places@.len() == i,
            forall|j: int| 0 <= j < i ==> (#[trigger] places@[j]) < 62,
        decreases length - i,
    {
        places.push(outside::random_index(62));
        i = i + 1;
    }
    short_id_from_places(&places)
}

// ---------------------------------------------------------------------------------------------
// Recording a file
// ---------------------------------------------------------------------------------------------

/// A file that is being recorded: the short identifier that is tried, and how many more can be.
#[derive(Debug, PartialEq)]
pub struct Recording {
    pub short_id: String,
    pub more: u8,
}

/// What became of inserting a file.
#[derive(Debug, PartialEq)]
pub enum InsertOutcome {
    Inserted,
    /// The file or the short identifier is there already.
    Constraint,
    Failed(String),
}

/// What comes next when a file is recorded.
#[derive(Debug, PartialEq)]
pub enum RecordStep {
    /// The file has this short identifier.
    Done(String),
    /// The file cannot be recorded.
    Failed(String),
    /// Look up the short identifier of the file.
    Lookup,
    /// The file is there without a short identifier: give it this one.
    Assign(String),
    /// Insert again, under the next short identifier.
    Insert,
}

/// One try follows another.
pub open spec fn tries_again(before: Recording, after: Recording) -> bool {
    before.more > 0 && after.more == before.more - 1
}

/// What comes next after an earlier record of the file was looked up: there is none, or there is one
/// with a short identifier or without. One that is empty is none.
pub open spec fn lookup_step(
    before: Recording,
    row: Option<Option<Seq<char>>>,
    fresh: Seq<char>,
    after: Recording,
    step: RecordStep,
) -> bool {
    match row {
        Some(short_id) => {
            &&& after == before
            &&& if text::text_or_empty(short_id).len() > 0 {
                step matches RecordStep::Done(t) && Some(t@) == short_id
            } else {
                step matches RecordStep::Assign(t) && t@ == fresh
            }
        },
        None => if before.more > 0 {
            step is Insert && after.short_id@ == fresh && tries_again(before, after)
        } else {
            &&& after == before
            &&& step matches RecordStep::Failed(e) && e@ == "Failed to generate unique short_id"@
        },
    }
}

/// The first of five tries to record a file.
pub open spec fn begins_with(short_id: Seq<char>, r: Recording) -> bool {
    r.short_id@ == short_id && r.more == 4
}

/// The short identifier in a record, where there is a record.
pub open spec fn row_view(row: Option<Option<String>>) -> Option<Option<Seq<char>>> {
    match row {
        Some(short_id) => Some(text::opt_view(short_id)),
        None => None,
    }
}

impl Recording {
    /// The first of five tries, with a given short identifier.
    pub fn with_id(short_id: String) -> (r: Self)
        ensures
            begins_with(short_id@, r),
    {
        Recording { short_id, more: 4 }
    }

    /// The first of five tries, with a random short identifier.
    pub fn first() -> (r: Self)
        ensures
            is_short_id(r.short_id@, 6),
            begins_with(r.short_id@, r),
    {
        Recording::with_id(generate_short_id(6))
    }

    /// The file or the short identifier is there already, and the record of the file was looked up;
    /// `fresh` is used where another short identifier is needed.
    pub fn looked_up_row_with(&mut self, row: Option<Option<String>>, fresh: String) -> (r: RecordStep)
        ensures
            lookup_step(*old(self), row_view(row), fresh@, *final(self), r),
    {
        match row {
            Some(Some(s)) => {
                if s.as_str().unicode_len() > 0 {
                    RecordStep::Done(s)
                } else {
                    RecordStep::Assign(fresh)
                }
            },
            Some(None) => RecordStep::Assign(fresh),
            None => {
                if self.more > 0 {
                    self.short_id = fresh;
                    self.more = self.more - 1;
                    RecordStep::Insert
                } else {
                    RecordStep::Failed(String::from_str("Failed to generate unique short_id"))
                }
            },
        }
    }

    /// As `looked_up_row_with`, with a random short identifier where another is needed.
    pub fn looked_up_row(&mut self, row: Option<Option<String>>) -> (r: RecordStep)
        ensures
            exists|fresh: Seq<char>| #[trigger]
                is_short_id(fresh, 6) && lookup_step(
                    *old(self),
                    row_view(row),
                    fresh,
                    *final(self),
                    r,
                ),
    {
        let fresh = generate_short_id(6);
        assert(is_short_id(fresh@, 6));
        self.looked_up_row_with(row, fresh)
    }
}

/// What comes next after a file was inserted, or was not.
pub open spec fn insert_step(recording: Recording, outcome: InsertOutcome, step: RecordStep) -> bool {
    match outcome {
        InsertOutcome::Inserted => step matches RecordStep::Done(s) && s@ == recording.short_id@,
        InsertOutcome::Constraint => step is Lookup,
        InsertOutcome::Failed(e) => step matches RecordStep::Failed(f) && f@ == e@,
    }
}

/// The outcome of inserting a file, and what comes next.
pub fn add_file_metadata(recording: &Recording, outcome: InsertOutcome) -> (r: RecordStep)
    ensures
        insert_step(*recording, outcome, r),
{
    match outcome {
        InsertOutcome::Inserted => RecordStep::Done(recording.short_id.clone()),
        InsertOutcome::Constraint => RecordStep::Lookup,
        InsertOutcome::Failed(e) => RecordStep::Failed(e),
    }
}

/// The short identifier that a file was given, where it could be.
pub open spec fn is_assigned(
    short_id: Seq<char>,
    updated: Result<(), String>,
    r: Result<String, String>,
) -> bool {
    match updated {
        Ok(_) => r matches Ok(s) && s@ == short_id,
        Err(e) => r matches Err(f) && f@ == e@,
    }
}

/// A file that was there without a short identifier was given one, or could not be.
pub fn short_id_assigned(short_id: String, updated: Result<(), String>) -> (r: Result<String, String>)
    ensures
        is_assigned(short_id@, updated, r),
{
    match updated {
        Ok(_) => Ok(short_id),
        Err(e) => Err(e),
    }
}

/// A file that is recorded again keeps its short identifier: its second record is refused and the first
/// looked up, and where that has a short identifier, that is what recording the file gives; nothing is
/// inserted or assigned, and nothing changes.
pub proof fn law_recording_again_keeps_the_short_id(
    before: Recording,
    short_id: Seq<char>,
    fresh: Seq<char>,
    refused: RecordStep,
    after: Recording,
    step: RecordStep,
)
    requires
        short_id.len() > 0,
        insert_step(before, InsertOutcome::Constraint, refused),
        lookup_step(before, Some(Some(short_id)), fresh, after, step),
    ensures
        refused is Lookup,
        step matches RecordStep::Done(s) && s@ == short_id,
        after == before,
{
}

/// A file whose record has no short identifier is given one, and is not inserted again.
pub proof fn law_old_records_get_a_short_id(
    before: Recording,
    short_id: Option<Seq<char>>,
    fresh: Seq<char>,
    after: Recording,
    step: RecordStep,
)
    requires
        text::text_or_empty(short_id).len() == 0,
        lookup_step(before, Some(short_id), fresh, after, step),
    ensures
        step matches RecordStep::Assign(s) && s@ == fresh,
        after == before,
{
}

proof fn lemma_tries_left(tries: Seq<Recording>, k: int)
    requires
        tries.len() > 0,
        tries[0].more == 4,
        forall|i: int, j: int|
            0 <= i < tries.len() && j == i + 1 && j < tries.len() ==> #[trigger] tries_again(
                tries[i],
                tries[j],
            ),
        0 <= k < tries.len(),
    ensures
        tries[k].more == 4 - k,
    decreases k,
{
    if k > 0 {
        lemma_tries_left(tries, k - 1);
        assert(tries_again(tries[k - 1], tries[k]));
    }
}

/// However often the short identifiers collide, a file is inserted five times at most.
pub proof fn law_recording_ends(tries: Seq<Recording>)
    requires
        tries.len() > 0,
        tries[0].more == 4,
        forall|i: int, j: int|
            0 <= i < tries.len() && j == i + 1 && j < tries.len() ==> #[trigger] tries_again(
                tries[i],
                tries[j],
            ),
    ensures
        tries.len() <= 5,
{
    lemma_tries_left(tries, tries.len() - 1);
}

// ---------------------------------------------------------------------------------------------
// Metadata of files
// ---------------------------------------------------------------------------------------------

/// What is known of a stored file.
#[derive(Debug, PartialEq)]
pub struct FileMetadata {
    pub filename: String,
    pub file_id: String,
    pub filesize: i64,
    pub upload_date: String,
    pub short_id: Option<String>,
    pub share_password: Option<String>,
}

pub struct FileView {
    pub filename: Seq<char>,
    pub file_id: Seq<char>,
    pub filesize: i64,
    pub upload_date: Seq<char>,
    pub short_id: Option<Seq<char>>,
    pub share_password: Option<Seq<char>>,
}

impl View for FileMetadata {
    type V = FileView;

    open spec fn view(&self) -> FileView {
        FileView {
            filename: self.filename@,
            file_id: self.file_id@,
            filesize: self.filesize,
            upload_date: self.upload_date@,
            short_id: text::opt_view(self.short_id),
            share_password: text::opt_view(self.share_password),
        }
    }
}

/// What a list of files holds.
pub open spec fn files_view(s: Seq<FileMetadata>) -> Seq<FileView> {
    s.map_values(|f: FileMetadata| f@)
}

/// A row of the table of files. The columns that may be missing are `None` where they could not be
/// read.
#[derive(Debug, PartialEq)]
pub struct FileRow {
    pub filename: String,
    pub file_id: String,
    pub filesize: i64,
    pub upload_date: Option<String>,
    pub short_id: Option<String>,
    pub share_password: Option<String>,
}

/// The file that a row is about.
pub open spec fn row_file(row: FileRow) -> FileView {
    FileView {
        filename: row.filename@,
        file_id: row.file_id@,
        filesize: row.filesize,
        upload_date: text::text_or_empty(text::opt_view(row.upload_date)),
        short_id: text::opt_view(row.short_id),
        share_password: text::opt_view(row.share_password),
    }
}

fn file_of(row: FileRow) -> (r: FileMetadata)
    ensures
        r@ == row_file(row),
{
    let upload_date = match row.upload_date {
        Some(d) => d,
        None => String::new(),
    };
    FileMetadata {
        filename: row.filename,
        file_id: row.file_id,
        filesize: row.filesize,
        upload_date,
        short_id: row.short_id,
        share_password: row.share_password,
    }
}

/// The files of the rows that could be read, in their order.
pub open spec fn rows_files(rows: Seq<Option<FileRow>>) -> Seq<FileView>
    decreases rows.len(),
{
    if rows.len() == 0 {
        Seq::empty()
    } else {
        match rows.last() {
            Some(row) => rows_files(rows.drop_last()).push(row_file(row)),
            None => rows_files(rows.drop_last()),
        }
    }
}

/// A list the other way round.
pub fn turned<T>(list: Vec<T>) -> (r: Vec<T>)
    ensures
        r@ == list@.reverse(),
{
    let mut rest = list;
    let ghost all = list@;
    let mut r: Vec<T> = Vec::new();
    assert(r@ + all.reverse() =~= all.reverse());
    while rest.len() > 0
        invariant
            r@ + rest@.reverse() == all.reverse(),
        decreases rest@.len(),
    {
        let ghost before = rest@;
        let ghost before_r = r@;
        if let Some(x) = rest.pop() {
            r.push(x);
            assert(r@ + rest@.reverse() =~= before_r + before.reverse());
        }
    }
    assert(r@ + rest@.reverse() =~= r@);
    r
}

/// The files of rows, where they could be read; else the error.
pub open spec fn are_files(
    rows: Result<Vec<Option<FileRow>>, String>,
    r: Result<Vec<FileMetadata>, String>,
) -> bool {
    match rows {
        Ok(rows) => r matches Ok(files) && files_view(files@) == rows_files(rows@),
        Err(e) => r matches Err(f) && f@ == e@,
    }
}

/// All files: those of the rows that could be read. A row that could not is `None`.
pub fn get_all_files(rows: Result<Vec<Option<FileRow>>, String>) -> (r: Result<Vec<FileMetadata>, String>)
    ensures
        are_files(rows, r),
{
    let mut rest = match rows {
        Ok(rows) => rows,
        Err(e) => {
            return Err(e);
        },
    };
    let ghost all = rest@;
    let mut back: Vec<FileMetadata> = Vec::new();
    let ghost mut tail = Seq::<FileView>::empty();
    assert(files_view(back@).reverse() =~= tail);
    assert(rows_files(all) + tail =~= rows_files(all));
    while rest.len() > 0
        invariant
            rows_files(all) == rows_files(rest@) + tail,
            files_view(back@).reverse() == tail,
        decreases rest@.len(),
    {
        let ghost before = rest@;
        let ghost before_back = files_view(back@);
        if let Some(row) = rest.pop() {
            assert(before.drop_last() =~= rest@);
            if let Some(row) = row {
                let file = file_of(row);
                proof {
                    tail = seq![file@] + tail;
                    assert(rows_files(before) =~= rows_files(rest@).push(file@));
                    assert(rows_files(all) =~= rows_files(rest@) + tail);
                }
                back.push(file);
                proof {
                    assert(files_view(back@) =~= before_back.push(file@));
                    assert(files_view(back@).reverse() =~= tail);
                }
            }
        }
    }
    proof {
        assert(rows_files(rest@) + tail =~= tail);
    }
    let files = turned(back);
    assert(files_view(files@) =~= tail);
    Ok(files)
}

/// The file of a row, where there is one; else the error.
pub open spec fn is_file(
    row: Result<Option<FileRow>, String>,
    r: Result<Option<FileMetadata>, String>,
) -> bool {
    match row {
        Ok(Some(row)) => r matches Ok(Some(f)) && f@ == row_file(row),
        Ok(None) => r matches Ok(None),
        Err(e) => r matches Err(f) && f@ == e@,
    }
}

/// The file with an identifier, where there is one.
pub fn get_file_by_id(row: Result<Option<FileRow>, String>) -> (r: Result<Option<FileMetadata>, String>)
    ensures
        is_file(row, r),
{
    match row {
        Ok(Some(row)) => Ok(Some(file_of(row))),
        Ok(None) => Ok(None),
        Err(e) => Err(e),
    }
}

/// A statement changed some row.
pub open spec fn some_row(rows: Result<usize, String>, r: Result<bool, String>) -> bool {
    match rows {
        Ok(n) => r matches Ok(b) && b == (n > 0),
        Err(e) => r matches Err(f) && f@ == e@,
    }
}

/// Whether a file was deleted: whether a row was.
pub fn delete_file_metadata(rows: Result<usize, String>) -> (r: Result<bool, String>)
    ensures
        some_row(rows, r),
{
    match rows {
        Ok(n) => Ok(n > 0),
        Err(e) => Err(e),
    }
}

/// Whether the share password of a file was set or cleared: whether a row was changed.
pub fn set_share_password(rows: Result<usize, String>) -> (r: Result<bool, String>)
    ensures
        some_row(rows, r),
{
    match rows {
        Ok(n) => Ok(n > 0),
        Err(e) => Err(e),
    }
}

/// What the identifiers of the documents of a message begin with.
pub open spec fn message_prefix(message_id: i64) -> Seq<char> {
    text::decimal_signed(message_id as int) + seq![':']
}

/// The pattern for the identifiers of the documents of a message.
pub open spec fn pattern_of(message_id: i64) -> Seq<char> {
    message_prefix(message_id) + seq!['%']
}

/// The pattern for the identifiers of the documents of a message.
pub fn message_pattern(message_id: i64) -> (r: String)
    ensures
        r@ == pattern_of(message_id),
{
    let mut r = String::new();
    text::push_decimal_signed(&mut r, message_id);
    r.push(':');
    r.push('%');
    assert(r@ =~= message_prefix(message_id) + seq!['%']);
    r
}

/// The file of a deleted message, by whether its record was found and could be deleted.
pub open spec fn is_deleted(
    found: Option<String>,
    deleted: Result<(), String>,
    r: Result<Option<String>, String>,
) -> bool {
    match found {
        Some(id) => match deleted {
            Ok(_) => r matches Ok(Some(s)) && s@ == id@,
            Err(e) => r matches Err(f) && f@ == e@,
        },
        None => r matches Ok(None),
    }
}

/// The file of a deleted message: the one whose record was found, unless its record could not be
/// deleted.
pub fn delete_file_by_message_id(found: Option<String>, deleted: Result<(), String>) -> (r: Result<
    Option<String>,
    String,
>)
    ensures
        is_deleted(found, deleted, r),
{
    match found {
        Some(id) => match deleted {
            Ok(_) => Ok(Some(id)),
            Err(e) => Err(e),
        },
        None => Ok(None),
    }
}

/// What the pattern of a message finds among the documents that were sent are those of this message
/// and no others.
pub proof fn law_pattern_finds_the_message(message_id: i64, other: i64, file_id: Seq<char>)
    ensures
        message_prefix(message_id).is_prefix_of(api_upload::composite(other, file_id)) <==> message_id
            == other,
{
    let p = message_prefix(message_id);
    let c = api_upload::composite(other, file_id);
    text::lemma_decimal_round_trip(message_id as int);
    text::lemma_decimal_round_trip(other as int);
    if message_id == other {
        assert(p =~= c.subrange(0, p.len() as int));
    }
    if p.is_prefix_of(c) {
        let rest = c.skip(p.len() as int);
        assert(c =~= text::decimal_signed(message_id as int) + seq![':'] + rest);
        text::lemma_split_once_join(text::decimal_signed(message_id as int), ':', rest);
        text::lemma_split_once_join(text::decimal_signed(other as int), ':', file_id);
    }
}

// ---------------------------------------------------------------------------------------------
// Settings
// ---------------------------------------------------------------------------------------------

/// A setting without the white space round it; a blank one is none.
pub open spec fn normed(v: Option<Seq<char>>) -> Option<Seq<char>> {
    match v {
        Some(s) => if text::trimmed(s).len() > 0 {
            Some(text::trimmed(s))
        } else {
            None
        },
        None => None,
    }
}

/// A setting without the white space round it; a blank one is none.
pub fn norm(v: Option<&str>) -> (r: Option<String>)
    ensures
        text::opt_view(r) == normed(text::opt_str_view(v)),
{
    match v {
        Some(s) => {
            let t = text::trim(s);
            if t.unicode_len() > 0 {
                Some(String::from_str(t))
            } else {
                None
            }
        },
        None => None,
    }
}

/// Settings as they are stored.
pub open spec fn normed_settings(s: AppSettingsView) -> AppSettingsView {
    AppSettingsView {
        bot_token: normed(s.bot_token),
        channel_name: normed(s.channel_name),
        pass_word: normed(s.pass_word),
        picgo_api_key: normed(s.picgo_api_key),
        base_url: normed(s.base_url),
        session_token: normed(s.session_token),
    }
}

/// The settings of a row, or none where there is no row; else the error.
pub open spec fn are_settings(
    row: Result<Option<AppSettingsMap>, String>,
    r: Result<AppSettingsMap, String>,
) -> bool {
    match row {
        Ok(Some(s)) => r matches Ok(t) && t@ == s@,
        Ok(None) => r matches Ok(t) && t@ == config::empty_settings(),
        Err(e) => r matches Err(f) && f@ == e@,
    }
}

/// The settings that are stored: those of the row, or none where there is no row.
pub fn get_app_settings_from_db(row: Result<Option<AppSettingsMap>, String>) -> (r: Result<
    AppSettingsMap,
    String,
>)
    ensures
        are_settings(row, r),
{
    match row {
        Ok(Some(s)) => Ok(s),
        Ok(None) => Ok(AppSettingsMap::empty()),
        Err(e) => Err(e),
    }
}

/// The row that is written when settings are saved.
pub fn save_app_settings_to_db(payload: &AppSettingsMap) -> (r: AppSettingsMap)
    ensures
        r@ == normed_settings(payload@),
{
    AppSettingsMap {
        bot_token: norm(config::borrow_text(&payload.bot_token)),
        channel_name: norm(config::borrow_text(&payload.channel_name)),
        pass_word: norm(config::borrow_text(&payload.pass_word)),
        picgo_api_key: norm(config::borrow_text(&payload.picgo_api_key)),
        base_url: norm(config::borrow_text(&payload.base_url)),
        session_token: norm(config::borrow_text(&payload.session_token)),
    }
}

/// The row that is written when the settings are reset: no setting is left.
pub fn reset_app_settings_in_db() -> (r: AppSettingsMap)
    ensures
        r@ == config::empty_settings(),
{
    save_app_settings_to_db(&AppSettingsMap::empty())
}

proof fn lemma_normed_twice(v: Option<Seq<char>>)
    ensures
        normed(normed(v)) == normed(v),
{
    if let Some(s) = v {
        text::lemma_trimmed_idempotent(s);
    }
}

/// Settings that were read back and are saved again stay as they are.
pub proof fn law_saving_again_changes_nothing(s: AppSettingsView)
    ensures
        normed_settings(normed_settings(s)) == normed_settings(s),
{
    lemma_normed_twice(s.bot_token);
    lemma_normed_twice(s.channel_name);
    lemma_normed_twice(s.pass_word);
    lemma_normed_twice(s.picgo_api_key);
    lemma_normed_twice(s.base_url);
    lemma_normed_twice(s.session_token);
}

/// Once settings are saved, they are in force as they were given, but for white space round them.
/// Where one is blank, that of the environment is in force.
pub proof fn law_saved_settings_are_in_force(settings: config::Settings, s: AppSettingsView)
    ensures
        config::app_settings(settings, Some(normed_settings(s))) == config::merged(
            s,
            config::env_settings(settings),
        ),
{
    lemma_normed_twice(s.bot_token);
    lemma_normed_twice(s.channel_name);
    lemma_normed_twice(s.pass_word);
    lemma_normed_twice(s.picgo_api_key);
    lemma_normed_twice(s.base_url);
    lemma_normed_twice(s.session_token);
}

// ---------------------------------------------------------------------------------------------
// Laws of what is read and written
// ---------------------------------------------------------------------------------------------

/// The database stands in the data directory, whether or not the directory is written with a slash.
pub proof fn law_database_stands_in_the_directory(dir: Seq<char>)
    ensures
        dir.len() > 0 && dir.last() != '/' ==> path_in(dir) == path_in(dir.push('/')) && path_in(dir) == dir
            + "/"@ + "file_metadata.db"@,
        path_in(Seq::empty()) == "file_metadata.db"@,
{
    reveal_strlit("/");
    assert("/"@ =~= seq!['/']);
    assert(dir.push('/') =~= dir + seq!['/']);
    assert(path_in(Seq::empty()) =~= "file_metadata.db"@);
}

/// Some statement of a list is this one.
pub open spec fn runs(statements: Seq<StatementView>, sql: Seq<char>) -> bool {
    exists|i: int| 0 <= i < statements.len() && (#[trigger] statements[i]).sql == sql
}

/// A database that lacks a column gets it, and one that has it is not changed; the two tables and the row
/// of the settings are made where they are missing, and nothing goes on where they cannot be.
pub proof fn law_databases_are_brought_up_to_date(columns: Vec<String>)
    ensures
        ({
            let c = text::strings_view(columns@);
            let files = init_statements(InitStage::FilesTable(columns));
            let settings = init_statements(InitStage::SettingsTable(columns));
            &&& runs(files, "ALTER TABLE files ADD COLUMN short_id TEXT"@) <==> !c.contains("short_id"@)
            &&& runs(files, "ALTER TABLE files ADD COLUMN share_password TEXT"@) <==> !c.contains(
                "share_password"@,
            )
            &&& runs(settings, "ALTER TABLE app_settings ADD COLUMN session_token TEXT"@) <==> !c.contains(
                "session_token"@,
            )
            &&& runs(files, settings_table())
            &&& runs(files, "INSERT OR IGNORE INTO app_settings (id) VALUES (1)"@)
            &&& runs(files, "CREATE UNIQUE INDEX IF NOT EXISTS idx_files_short_id ON files(short_id);"@)
            &&& runs(init_statements(InitStage::Opened), files_table())
            &&& forall|i: int|
                0 <= i < files.len() && ((#[trigger] files[i]).sql == settings_table() || files[i].sql
                    == "INSERT OR IGNORE INTO app_settings (id) VALUES (1)"@) ==> files[i].on_error is Stop
            &&& init_statements(InitStage::Opened)[0].on_error is Stop
        }),
{
    let c = text::strings_view(columns@);
    let files = init_statements(InitStage::FilesTable(columns));
    let settings = init_statements(InitStage::SettingsTable(columns));
    let n = files.len() as int;
    lemma_statements_differ();
    assert(files[n - 3].sql == "CREATE UNIQUE INDEX IF NOT EXISTS idx_files_short_id ON files(short_id);"@);
    assert(files[n - 2].sql == settings_table());
    assert(files[n - 1].sql == "INSERT OR IGNORE INTO app_settings (id) VALUES (1)"@);
    assert(init_statements(InitStage::Opened)[0].sql == files_table());
    if !c.contains("short_id"@) {
        assert(files[0].sql == "ALTER TABLE files ADD COLUMN short_id TEXT"@);
    }
    if !c.contains("share_password"@) {
        let k = if c.contains("short_id"@) {
            0int
        } else {
            1
        };
        assert(files[k].sql == "ALTER TABLE files ADD COLUMN share_password TEXT"@);
    }
    if !c.contains("session_token"@) {
        assert(settings[0].sql == "ALTER TABLE app_settings ADD COLUMN session_token TEXT"@);
    }
}

proof fn lemma_statements_differ()
    ensures
        "ALTER TABLE files ADD COLUMN short_id TEXT"@ != "ALTER TABLE files ADD COLUMN share_password TEXT"@,
        "ALTER TABLE files ADD COLUMN short_id TEXT"@
            != "CREATE UNIQUE INDEX IF NOT EXISTS idx_files_short_id ON files(short_id);"@,
        "ALTER TABLE files ADD COLUMN short_id TEXT"@ != settings_table(),
        "ALTER TABLE files ADD COLUMN short_id TEXT"@ != "INSERT OR IGNORE INTO app_settings (id) VALUES (1)"@,
        "ALTER TABLE files ADD COLUMN share_password TEXT"@
            != "CREATE UNIQUE INDEX IF NOT EXISTS idx_files_short_id ON files(short_id);"@,
        "ALTER TABLE files ADD COLUMN share_password TEXT"@ != settings_table(),
        "ALTER TABLE files ADD COLUMN share_password TEXT"@
            != "INSERT OR IGNORE INTO app_settings (id) VALUES (1)"@,
        "CREATE UNIQUE INDEX IF NOT EXISTS idx_files_short_id ON files(short_id);"@ != settings_table(),
        "CREATE UNIQUE INDEX IF NOT EXISTS idx_files_short_id ON files(short_id);"@
            != "INSERT OR IGNORE INTO app_settings (id) VALUES (1)"@,
{
    reveal_strlit("ALTER TABLE files ADD COLUMN short_id TEXT");
    reveal_strlit("ALTER TABLE files ADD COLUMN share_password TEXT");
    reveal_strlit("CREATE UNIQUE INDEX IF NOT EXISTS idx_files_short_id ON files(short_id);");
    reveal_strlit("INSERT OR IGNORE INTO app_settings (id) VALUES (1)");
    reveal_strlit("CREATE TABLE IF NOT EXISTS app_settings (
            id INTEGER PRIMARY KEY CHECK (id = 1),
            bot_token TEXT,
            channel_name TEXT,
            pass_word TEXT,
            picgo_api_key TEXT,
            base_url TEXT,
            session_token TEXT
        );");
    assert("ALTER TABLE files ADD COLUMN short_id TEXT"@[0] == 'A');
    assert("ALTER TABLE files ADD COLUMN share_password TEXT"@[0] == 'A');
    assert("ALTER TABLE files ADD COLUMN short_id TEXT"@[31] == 'o');
    assert("ALTER TABLE files ADD COLUMN share_password TEXT"@[31] == 'a');
    assert("CREATE UNIQUE INDEX IF NOT EXISTS idx_files_short_id ON files(short_id);"@[0] == 'C');
    assert("CREATE UNIQUE INDEX IF NOT EXISTS idx_files_short_id ON files(short_id);"@[7] == 'U');
    assert("INSERT OR IGNORE INTO app_settings (id) VALUES (1)"@[0] == 'I');
    assert(settings_table()[0] == 'C');
    assert(settings_table()[7] == 'T');
}

/// A short identifier holds letters and digits alone, so it can stand in a link as it is.
pub proof fn law_short_ids_are_letters_and_digits(s: Seq<char>, length: int, i: int)
    requires
        is_short_id(s, length),
        0 <= i < length,
    ensures
        s.len() == length,
        0x61 <= s[i] as u32 <= 0x7a || 0x41 <= s[i] as u32 <= 0x5a || 0x30 <= s[i] as u32 <= 0x39,
{
    reveal_strlit("abcdefghijklmnopqrstuvwxyzABCDEFGHIJKLMNOPQRSTUVWXYZ0123456789");
    assert(alphabet().contains(s[i]));
}

/// A file that was inserted has the short identifier that was tried, one that could not be says why, and
/// where something was there already it is looked up.
pub proof fn law_inserted_files_have_their_short_ids(recording: Recording, outcome: InsertOutcome, step: RecordStep)
    requires
        insert_step(recording, outcome, step),
    ensures
        outcome is Inserted ==> (step matches RecordStep::Done(s) && s@ == recording.short_id@),
        outcome is Constraint ==> step is Lookup,
        outcome matches InsertOutcome::Failed(e) ==> (step matches RecordStep::Failed(f) && f@ == e@),
        step is Done <==> outcome is Inserted,
{
}

/// Where the short identifier alone was taken, another is tried as long as tries are left, and one try
/// fewer is left then.
pub proof fn law_taken_short_ids_are_replaced(before: Recording, fresh: Seq<char>, after: Recording, step: RecordStep)
    requires
        lookup_step(before, None, fresh, after, step),
    ensures
        before.more > 0 ==> step is Insert && after.short_id@ == fresh && after.more == before.more - 1,
        before.more == 0 ==> after == before && (step matches RecordStep::Failed(e) && e@
            == "Failed to generate unique short_id"@),
{
}

/// A file that was given a short identifier has it, unless it could not be written.
pub proof fn law_assigned_short_ids(short_id: Seq<char>, updated: Result<(), String>, r: Result<String, String>)
    requires
        is_assigned(short_id, updated, r),
    ensures
        r is Ok <==> updated is Ok,
        r matches Ok(s) ==> s@ == short_id,
        r matches Err(f) ==> f@ == updated->Err_0@,
{
}

/// A file is what its row says. Its date may be missing, and is empty then.
pub proof fn law_files_are_what_their_rows_say(row: FileRow)
    ensures
        row_file(row).filename == row.filename@,
        row_file(row).file_id == row.file_id@,
        row_file(row).filesize == row.filesize,
        row.upload_date matches Some(d) ==> row_file(row).upload_date == d@,
        row.upload_date is None ==> row_file(row).upload_date.len() == 0,
        row.short_id matches Some(s) ==> row_file(row).short_id == Some(s@),
        row.short_id is None ==> row_file(row).short_id is None,
        row.share_password matches Some(h) ==> row_file(row).share_password == Some(h@),
        row.share_password is None ==> row_file(row).share_password is None,
{
}

/// Every row that can be read is a file, in the order of the rows: one row more at the end is one file
/// more at the end, and a row that cannot be read is passed over.
pub proof fn law_every_row_is_a_file(rows: Seq<Option<FileRow>>, row: FileRow)
    ensures
        rows_files(rows.push(Some(row))) == rows_files(rows).push(row_file(row)),
        rows_files(rows.push(None)) == rows_files(rows),
        rows_files(Seq::empty()).len() == 0,
        rows_files(rows).len() <= rows.len(),
    decreases rows.len(),
{
    assert(rows.push(Some(row)).drop_last() =~= rows);
    assert(rows.push(None).drop_last() =~= rows);
    if rows.len() > 0 {
        law_every_row_is_a_file(rows.drop_last(), row);
    }
}

/// Reading files gives them where the rows could be read, and the error elsewhere.
pub proof fn law_read_files(
    rows: Result<Vec<Option<FileRow>>, String>,
    files: Result<Vec<FileMetadata>, String>,
    row: Result<Option<FileRow>, String>,
    file: Result<Option<FileMetadata>, String>,
)
    requires
        are_files(rows, files),
        is_file(row, file),
    ensures
        files is Ok <==> rows is Ok,
        files matches Ok(v) ==> files_view(v@) == rows_files(rows->Ok_0@),
        files matches Err(f) ==> f@ == rows->Err_0@,
        file is Ok <==> row is Ok,
        file matches Ok(Some(f)) ==> row->Ok_0 is Some && f@ == row_file(row->Ok_0->Some_0),
        file matches Ok(None) ==> row->Ok_0 is None,
        file matches Err(f) ==> f@ == row->Err_0@,
{
}

/// Something was changed exactly where at least one row was.
pub proof fn law_changes_change_rows(rows: Result<usize, String>, r: Result<bool, String>)
    requires
        some_row(rows, r),
    ensures
        r is Ok <==> rows is Ok,
        r == Ok::<bool, String>(true) <==> rows is Ok && rows->Ok_0 > 0,
        r matches Err(f) ==> f@ == rows->Err_0@,
{
}

/// The file of a deleted message is the one that was found, and there is none where none was.
pub proof fn law_deleted_messages_name_their_files(
    found: Option<String>,
    deleted: Result<(), String>,
    r: Result<Option<String>, String>,
)
    requires
        is_deleted(found, deleted, r),
    ensures
        found is None ==> r == Ok::<_, String>(None::<String>),
        found is Some && deleted is Ok ==> (r matches Ok(Some(s)) && s@ == found->Some_0@),
        found is Some && deleted is Err ==> (r matches Err(f) && f@ == deleted->Err_0@),
{
}

/// A setting is stored without the white space round it, and not at all where it is blank.
pub proof fn law_settings_are_stored_plainly(a: Seq<char>, t: Seq<char>, b: Seq<char>)
    requires
        forall|i: int| 0 <= i < a.len() ==> text::is_whitespace(#[trigger] a[i]),
        forall|i: int| 0 <= i < b.len() ==> text::is_whitespace(#[trigger] b[i]),
        t.len() > 0 ==> !text::is_whitespace(t[0]) && !text::is_whitespace(t.last()),
    ensures
        normed(Some(a + t + b)) == if t.len() > 0 {
            Some(t)
        } else {
            None
        },
        normed(None) is None,
{
    text::law_trimmed_of_surrounded(a, t, b);
}

/// Every setting is stored, each under its own name.
pub proof fn law_every_setting_is_stored(s: AppSettingsView)
    ensures
        normed_settings(s).bot_token == normed(s.bot_token),
        normed_settings(s).channel_name == normed(s.channel_name),
        normed_settings(s).pass_word == normed(s.pass_word),
        normed_settings(s).picgo_api_key == normed(s.picgo_api_key),
        normed_settings(s).base_url == normed(s.base_url),
        normed_settings(s).session_token == normed(s.session_token),
{
}

/// The settings that are read are those of the row, and there are none where there is no row.
pub proof fn law_read_settings(row: Result<Option<AppSettingsMap>, String>, r: Result<AppSettingsMap, String>)
    requires
        are_settings(row, r),
    ensures
        r is Ok <==> row is Ok,
        row matches Ok(Some(s)) ==> (r matches Ok(t) && t@ == s@),
        row matches Ok(None) ==> (r matches Ok(t) && t@.bot_token is None && t@.channel_name is None
            && t@.pass_word is None && t@.picgo_api_key is None && t@.base_url is None
            && t@.session_token is None),
        r matches Err(f) ==> f@ == row->Err_0@,
{
}

/// The table of files keeps of each its name, its identifier, its size, its date, its short identifier and
/// its share password; no two files have one identifier or one short identifier.
pub proof fn law_table_of_files()
    ensures
        text::has_substring(files_table(), "filename TEXT NOT NULL"@),
        text::has_substring(files_table(), "file_id TEXT NOT NULL UNIQUE"@),
        text::has_substring(files_table(), "filesize INTEGER NOT NULL"@),
        text::has_substring(files_table(), "upload_date TIMESTAMP DEFAULT CURRENT_TIMESTAMP"@),
        text::has_substring(files_table(), "short_id TEXT UNIQUE"@),
        text::has_substring(files_table(), "share_password TEXT"@),
        text::has_substring(files_table(), "CREATE TABLE IF NOT EXISTS files ("@),
{
    reveal_strlit("CREATE TABLE IF NOT EXISTS files (
            id INTEGER PRIMARY KEY AUTOINCREMENT,
            filename TEXT NOT NULL,
            file_id TEXT NOT NULL UNIQUE,
            filesize INTEGER NOT NULL,
            upload_date TIMESTAMP DEFAULT CURRENT_TIMESTAMP,
            short_id TEXT UNIQUE,
            share_password TEXT
        );");
    reveal_strlit("filename TEXT NOT NULL");
    reveal_strlit("file_id TEXT NOT NULL UNIQUE");
    reveal_strlit("filesize INTEGER NOT NULL");
    reveal_strlit("upload_date TIMESTAMP DEFAULT CURRENT_TIMESTAMP");
    reveal_strlit("short_id TEXT UNIQUE");
    reveal_strlit("share_password TEXT");
    reveal_strlit("CREATE TABLE IF NOT EXISTS files (");
    let t = files_table();
    assert(t.len() == 339);
    assert(t.subrange(97, 119) =~= "filename TEXT NOT NULL"@);
    assert(text::occurs_at(t, "filename TEXT NOT NULL"@, 97));
    assert(t.subrange(133, 161) =~= "file_id TEXT NOT NULL UNIQUE"@);
    assert(text::occurs_at(t, "file_id TEXT NOT NULL UNIQUE"@, 133));
    assert(t.subrange(175, 200) =~= "filesize INTEGER NOT NULL"@);
    assert(text::occurs_at(t, "filesize INTEGER NOT NULL"@, 175));
    assert(t.subrange(214, 261) =~= "upload_date TIMESTAMP DEFAULT CURRENT_TIMESTAMP"@);
    assert(text::occurs_at(t, "upload_date TIMESTAMP DEFAULT CURRENT_TIMESTAMP"@, 214));
    assert(t.subrange(275, 295) =~= "short_id TEXT UNIQUE"@);
    assert(text::occurs_at(t, "short_id TEXT UNIQUE"@, 275));
    assert(t.subrange(309, 328) =~= "share_password TEXT"@);
    assert(text::occurs_at(t, "share_password TEXT"@, 309));
    assert(t.subrange(0, 34) =~= "CREATE TABLE IF NOT EXISTS files ("@);
    assert(text::occurs_at(t, "CREATE TABLE IF NOT EXISTS files ("@, 0));
}

/// The table of settings keeps every setting, in one row.
pub proof fn law_table_of_settings()
    ensures
        text::has_substring(settings_table(), "CHECK (id = 1)"@),
        text::has_substring(settings_table(), "bot_token TEXT"@),
        text::has_substring(settings_table(), "channel_name TEXT"@),
        text::has_substring(settings_table(), "pass_word TEXT"@),
        text::has_substring(settings_table(), "picgo_api_key TEXT"@),
        text::has_substring(settings_table(), "base_url TEXT"@),
        text::has_substring(settings_table(), "session_token TEXT"@),
        text::has_substring(settings_table(), "CREATE TABLE IF NOT EXISTS app_settings ("@),
{
    reveal_strlit("CREATE TABLE IF NOT EXISTS app_settings (
            id INTEGER PRIMARY KEY CHECK (id = 1),
            bot_token TEXT,
            channel_name TEXT,
            pass_word TEXT,
            picgo_api_key TEXT,
            base_url TEXT,
            session_token TEXT
        );");
    reveal_strlit("CHECK (id = 1)");
    reveal_strlit("bot_token TEXT");
    reveal_strlit("channel_name TEXT");
    reveal_strlit("pass_word TEXT");
    reveal_strlit("picgo_api_key TEXT");
    reveal_strlit("base_url TEXT");
    reveal_strlit("session_token TEXT");
    reveal_strlit("CREATE TABLE IF NOT EXISTS app_settings (");
    let t = settings_table();
    assert(t.len() == 280);
    assert(t.subrange(77, 91) =~= "CHECK (id = 1)"@);
    assert(text::occurs_at(t, "CHECK (id = 1)"@, 77));
    assert(t.subrange(105, 119) =~= "bot_token TEXT"@);
    assert(text::occurs_at(t, "bot_token TEXT"@, 105));
    assert(t.subrange(133, 150) =~= "channel_name TEXT"@);
    assert(text::occurs_at(t, "channel_name TEXT"@, 133));
    assert(t.subrange(164, 178) =~= "pass_word TEXT"@);
    assert(text::occurs_at(t, "pass_word TEXT"@, 164));
    assert(t.subrange(192, 210) =~= "picgo_api_key TEXT"@);
    assert(text::occurs_at(t, "picgo_api_key TEXT"@, 192));
    assert(t.subrange(224, 237) =~= "base_url TEXT"@);
    assert(text::occurs_at(t, "base_url TEXT"@, 224));
    assert(t.subrange(251, 269) =~= "session_token TEXT"@);
    assert(text::occurs_at(t, "session_token TEXT"@, 251));
    assert(t.subrange(0, 41) =~= "CREATE TABLE IF NOT EXISTS app_settings ("@);
    assert(text::occurs_at(t, "CREATE TABLE IF NOT EXISTS app_settings ("@, 0));
}

/// What is known of a file is what its record holds.
pub proof fn law_records_hold_what_they_are_made_of(f: FileMetadata)
    ensures
        f@.filename == f.filename@,
        f@.file_id == f.file_id@,
        f@.filesize == f.filesize,
        f@.upload_date == f.upload_date@,
        f.short_id matches Some(s) ==> f@.short_id == Some(s@),
        f.short_id is None ==> f@.short_id is None,
        f.share_password matches Some(h) ==> f@.share_password == Some(h@),
        f.share_password is None ==> f@.share_password is None,
{
}

/// The pattern for the documents of a message is the message, a colon, and anything behind it.
pub proof fn law_patterns_take_anything_behind(message_id: i64)
    ensures
        pattern_of(message_id) == text::decimal_signed(message_id as int) + seq![':', '%'],
{
    assert(pattern_of(message_id) =~= text::decimal_signed(message_id as int) + seq![':', '%']);
}

/// A recording that begins has this try and four more.
pub proof fn law_recordings_have_five_tries(short_id: Seq<char>, r: Recording)
    requires
        begins_with(short_id, r),
    ensures
        r.short_id@ == short_id,
        1 + r.more == 5,
{
}

} // verus!
