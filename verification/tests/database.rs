use tgstate::config::AppSettingsMap;
use tgstate::database::{
    add_file_metadata, db_path, delete_file_by_message_id, delete_file_metadata, generate_short_id,
    get_all_files, get_app_settings_from_db, get_file_by_id, init_db, message_pattern, norm,
    reset_app_settings_in_db, save_app_settings_to_db, set_share_password, short_id_assigned,
    short_id_from_places, turned, FileRow, InitStage, InsertOutcome, OnError, RecordStep, Recording,
};

fn row(name: &str) -> FileRow {
    FileRow {
        filename: name.to_string(),
        file_id: format!("1:{}", name),
        filesize: 4,
        upload_date: None,
        short_id: None,
        share_password: None,
    }
}

#[test]
fn database_lies_in_the_data_directory() {
    assert_eq!(db_path("app/data"), "app/data/file_metadata.db");
    assert_eq!(db_path("app/data/"), "app/data/file_metadata.db");
    assert_eq!(db_path(""), "file_metadata.db");
}

#[test]
fn missing_columns_are_added() {
    let first = init_db(&InitStage::Opened);
    assert_eq!(first.len(), 1);
    assert!(first[0].sql.starts_with("CREATE TABLE IF NOT EXISTS files ("));
    assert_eq!(first[0].on_error, OnError::Stop("Failed to create files table".to_string()));
    let old = init_db(&InitStage::FilesTable(vec!["id".to_string(), "filename".to_string()]));
    assert_eq!(old.len(), 5);
    assert_eq!(old[0].sql, "ALTER TABLE files ADD COLUMN short_id TEXT");
    assert_eq!(old[1].sql, "ALTER TABLE files ADD COLUMN share_password TEXT");
    assert_eq!(old[2].on_error, OnError::Ignore);
    assert!(old[3].sql.starts_with("CREATE TABLE IF NOT EXISTS app_settings ("));
    assert_eq!(old[4].sql, "INSERT OR IGNORE INTO app_settings (id) VALUES (1)");
    let new = init_db(&InitStage::FilesTable(vec![
        "short_id".to_string(),
        "share_password".to_string(),
    ]));
    assert_eq!(new.len(), 3);
    assert_eq!(init_db(&InitStage::SettingsTable(vec![])).len(), 1);
    assert!(init_db(&InitStage::SettingsTable(vec!["session_token".to_string()])).is_empty());
}

#[test]
fn short_ids_are_letters_and_digits() {
    assert_eq!(short_id_from_places(&vec![0, 25, 26, 51, 52, 61]), "azAZ09");
    let a = generate_short_id(6);
    assert_eq!(a.len(), 6);
    assert!(a.chars().all(|c| c.is_ascii_alphanumeric()));
    assert_eq!(generate_short_id(0), "");
    let many: Vec<String> = (0..8).map(|_| generate_short_id(12)).collect();
    assert!(many.iter().any(|s| s != &many[0]));
}

#[test]
fn files_are_recorded_under_a_free_short_id() {
    let mut r = Recording::first();
    assert_eq!(r.short_id.len(), 6);
    assert_eq!(
        add_file_metadata(&r, InsertOutcome::Inserted),
        RecordStep::Done(r.short_id.clone())
    );
    assert_eq!(add_file_metadata(&r, InsertOutcome::Constraint), RecordStep::Lookup);
    assert_eq!(
        add_file_metadata(&r, InsertOutcome::Failed("disk".to_string())),
        RecordStep::Failed("disk".to_string())
    );
    let tried = r.short_id.clone();
    assert_eq!(
        r.looked_up_row(Some(Some("old123".to_string()))),
        RecordStep::Done("old123".to_string())
    );
    // A record without a short identifier, or with an empty one, is given one.
    for row in [None, Some(String::new())] {
        match r.looked_up_row(Some(row)) {
            RecordStep::Assign(s) => assert_eq!(s.len(), 6),
            other => panic!("unexpected step: {:?}", other),
        }
    }
    assert_eq!(r, Recording::with_id(tried));
    assert_eq!(short_id_assigned("n".to_string(), Ok(())), Ok("n".to_string()));
    assert_eq!(short_id_assigned("n".to_string(), Err("e".to_string())), Err("e".to_string()));
}

#[test]
fn recording_gives_up_after_five_inserts() {
    let mut r = Recording::with_id("a".to_string());
    let mut inserts = 1;
    loop {
        match r.looked_up_row_with(None, format!("id{}", inserts)) {
            RecordStep::Insert => {
                assert_eq!(r.short_id, format!("id{}", inserts));
                inserts += 1;
            }
            RecordStep::Failed(e) => {
                assert_eq!(e, "Failed to generate unique short_id");
                break;
            }
            other => panic!("unexpected step: {:?}", other),
        }
    }
    assert_eq!(inserts, 5);
}

#[test]
fn unreadable_rows_are_left_out() {
    let mut dated = row("b");
    dated.upload_date = Some("2024-05-06 07:08:09".to_string());
    dated.short_id = Some("s".to_string());
    let files = get_all_files(Ok(vec![Some(row("a")), None, Some(dated)])).unwrap();
    assert_eq!(files.len(), 2);
    assert_eq!(files[0].filename, "a");
    assert_eq!(files[0].upload_date, "");
    assert_eq!(files[1].upload_date, "2024-05-06 07:08:09");
    assert_eq!(files[1].short_id.as_deref(), Some("s"));
    assert_eq!(get_all_files(Err("e".to_string())), Err("e".to_string()));
    assert_eq!(turned(vec![1, 2, 3]), vec![3, 2, 1]);
}

#[test]
fn files_are_found_by_their_identifier() {
    assert_eq!(get_file_by_id(Ok(Some(row("a")))).unwrap().unwrap().file_id, "1:a");
    assert_eq!(get_file_by_id(Ok(None)), Ok(None));
    assert_eq!(get_file_by_id(Err("e".to_string())), Err("e".to_string()));
}

#[test]
fn changed_rows_tell_whether_something_was_there() {
    assert_eq!(delete_file_metadata(Ok(1)), Ok(true));
    assert_eq!(delete_file_metadata(Ok(0)), Ok(false));
    assert_eq!(delete_file_metadata(Err("e".to_string())), Err("e".to_string()));
    assert_eq!(set_share_password(Ok(1)), Ok(true));
    assert_eq!(set_share_password(Ok(0)), Ok(false));
    assert_eq!(set_share_password(Err("e".to_string())), Err("e".to_string()));
}

#[test]
fn messages_lead_to_their_files() {
    assert_eq!(message_pattern(42), "42:%");
    assert_eq!(message_pattern(-7), "-7:%");
    assert_eq!(
        delete_file_by_message_id(Some("42:F".to_string()), Ok(())),
        Ok(Some("42:F".to_string()))
    );
    assert_eq!(delete_file_by_message_id(None, Ok(())), Ok(None));
    assert_eq!(
        delete_file_by_message_id(Some("42:F".to_string()), Err("e".to_string())),
        Err("e".to_string())
    );
}

#[test]
fn settings_are_stored_without_blanks() {
    assert_eq!(norm(Some("  x ")), Some("x".to_string()));
    assert_eq!(norm(Some(" \t")), None);
    assert_eq!(norm(None), None);
    let mut s = AppSettingsMap::empty();
    s.bot_token = Some(" 1:t ".to_string());
    s.channel_name = Some("  ".to_string());
    let stored = save_app_settings_to_db(&s);
    assert_eq!(stored.bot_token.as_deref(), Some("1:t"));
    assert_eq!(stored.channel_name, None);
    assert_eq!(save_app_settings_to_db(&stored), stored);
    assert_eq!(reset_app_settings_in_db(), AppSettingsMap::empty());
    assert_eq!(get_app_settings_from_db(Ok(Some(stored.copy()))), Ok(stored));
    assert_eq!(get_app_settings_from_db(Ok(None)), Ok(AppSettingsMap::empty()));
    assert_eq!(get_app_settings_from_db(Err("e".to_string())), Err("e".to_string()));
}
