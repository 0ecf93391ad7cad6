//! Backups: where a backup is written, and the checks a backup must pass before it
//! replaces the database.

use vstd::prelude::*;

use crate::answer::same_text;
use crate::error::CommandError;

verus! {

/// The file name a backup gets inside a directory.
pub const BACKUP_FILE_NAME: &'static str = "tickets.db.gz";

/// The extension a backup file name must end with.
pub const BACKUP_EXTENSION: &'static str = "db.gz";

/// Whether `s` ends with `suffix`.
pub open spec fn ends_with(s: Seq<char>, suffix: Seq<char>) -> bool {
    s.len() >= suffix.len() && s.subrange(s.len() - suffix.len(), s.len() as int) == suffix
}

/// Where a backup goes, relative to the output path given.
#[derive(Debug, Clone, Copy, PartialEq, Eq, Structural)]
pub enum BackupTarget {
    /// The path is a directory: the backup is `tickets.db.gz` inside it.
    InsideDirectory,
    /// The file name lacks the backup extension: `.db.gz` is added to it.
    AddExtension,
    /// The path is used as it is.
    AsGiven,
}

/// Where the backup goes: inside the output path when it is a directory, at the output path
/// when its file name already ends with `.db.gz`, and at the output path with `.db.gz`
/// added otherwise (also when the path has no file name, or one that is not Unicode).
pub fn backup_target(is_dir: bool, file_name: Option<&str>) -> (t: BackupTarget)
    ensures
        is_dir ==> t == BackupTarget::InsideDirectory,
        !is_dir ==> (t == BackupTarget::AsGiven <==> (file_name matches Some(n) && ends_with(
            n@,
            ".db.gz"@,
        ))),
        !is_dir ==> t != BackupTarget::InsideDirectory,
{
    if is_dir {
        return BackupTarget::InsideDirectory;
    }
    match file_name {
        Some(name) => {
            let n = name.unicode_len();
            proof {
                reveal_strlit(".db.gz");
            }
            if n >= 6 {
                let tail = name.substring_char(n - 6, n);
                if same_text(tail, ".db.gz") {
                    BackupTarget::AsGiven
                } else {
                    BackupTarget::AddExtension
                }
            } else {
                BackupTarget::AddExtension
            }
        },
        None => BackupTarget::AddExtension,
    }
}

/// A file name with the backup extension added is kept as it is by a later backup.
pub proof fn lemma_extended_name_is_kept(name: Seq<char>)
    ensures
        ends_with(name + ".db.gz"@, ".db.gz"@),
{
    let full = name + ".db.gz"@;
    assert(full.subrange(full.len() - ".db.gz"@.len(), full.len() as int) =~= ".db.gz"@);
}

/// The gzip magic number.
pub open spec fn gzip_magic() -> Seq<u8> {
    seq![0x1fu8, 0x8bu8]
}

/// The first sixteen bytes of every SQLite database: `SQLite format 3` and a zero byte.
pub open spec fn sqlite_header() -> Seq<u8> {
    seq![
        0x53u8, 0x51u8, 0x4cu8, 0x69u8, 0x74u8, 0x65u8, 0x20u8, 0x66u8,
        0x6fu8, 0x72u8, 0x6du8, 0x61u8, 0x74u8, 0x20u8, 0x33u8, 0x00u8,
    ]
}

/// Checks the first two bytes read from a backup file against the gzip magic number.
pub fn check_gzip_magic(first: &[u8]) -> (r: Result<(), CommandError>)
    ensures
        r is Ok <==> first@ == gzip_magic(),
        r matches Err(e) ==> e is NotGzip,
{
    if first.len() == 2 && first[0] == 0x1f && first[1] == 0x8b {
        assert(first@ =~= gzip_magic());
        Ok(())
    } else {
        Err(CommandError::NotGzip)
    }
}

/// Checks that a decompressed backup starts like an SQLite database.
pub fn check_sqlite_header(image: &[u8]) -> (r: Result<(), CommandError>)
    ensures
        r is Ok <==> (image@.len() >= 16 && image@.take(16) == sqlite_header()),
        r matches Err(e) ==> e is NotSqlite,
{
    let header: [u8; 16] = [
        0x53, 0x51, 0x4c, 0x69, 0x74, 0x65, 0x20, 0x66, 0x6f, 0x72, 0x6d, 0x61, 0x74, 0x20, 0x33,
        0x00,
    ];
    assert(header@ =~= sqlite_header());
    if image.len() < 16 {
        return Err(CommandError::NotSqlite);
    }
    let mut i: usize = 0;
    while i < 16
        invariant
            i <= 16,
            image@.len() >= 16,
            header@ == sqlite_header(),
            image@.take(i as int) == header@.take(i as int),
        decreases 16 - i,
    {
        if image[i] != header[i] {
            assert(image@.take(16)[i as int] != sqlite_header()[i as int]);
            return Err(CommandError::NotSqlite);
        }
        assert(image@.take(i + 1) =~= image@.take(i as int).push(image@[i as int]));
        assert(header@.take(i + 1) =~= header@.take(i as int).push(header@[i as int]));
        i = i + 1;
    }
    assert(header@.take(16) =~= header@);
    Ok(())
}

/// Checks the answer of SQLite's `PRAGMA integrity_check` on a backup: it must be `ok`.
pub fn check_integrity(status: &str) -> (r: Result<(), CommandError>)
    ensures
        r is Ok <==> status@ == "ok"@,
        r matches Err(e) ==> e is IntegrityCheckFailed,
{
    if same_text(status, "ok") {
        Ok(())
    } else {
        Err(CommandError::IntegrityCheckFailed)
    }
}

/// Checks that the backup to restore exists and is a file.
pub fn check_backup_source(exists: bool, is_dir: bool) -> (r: Result<(), CommandError>)
    ensures
        r is Ok <==> exists && !is_dir,
        !exists ==> (r matches Err(e) && e is PathNotFound),
        exists && is_dir ==> (r matches Err(e) && e is NotAFile),
{
    if !exists {
        Err(CommandError::PathNotFound)
    } else if is_dir {
        Err(CommandError::NotAFile)
    } else {
        Ok(())
    }
}

} // verus!
