//! The settings file: how it is read, what stands in for it, and the order in
//! which it is replaced.
use vstd::prelude::*;

use super::document::{SessionDocument, SCHEMA_VERSION};
use crate::domain::ids::random_text;
use crate::domain::ids;
use crate::json::json_number;
use crate::json;
use crate::text::{decimal_text, find_last, joined, joined3, same_text};
use crate::text;

verus! {

/// Why settings could not be read or written. Paths and the messages of other
/// errors come as text.
#[derive(Debug)]
pub enum PersistenceError {
    ConfigurationDirectoryUnavailable,
    UnsupportedVersion(u32),
    InvalidGraph(String),
    Io { path: String, source: String },
    Json { path: String, source: String },
    ChannelClosed,
    WorkerPanicked,
}

/// What an error says.
pub open spec fn described(error: PersistenceError) -> Seq<char> {
    match error {
        PersistenceError::ConfigurationDirectoryUnavailable =>
            "configuration directory is unavailable"@,
        PersistenceError::UnsupportedVersion(version) =>
            "unsupported configuration schema version "@ + text::decimal(version as nat),
        PersistenceError::InvalidGraph(detail) => "persisted graph is invalid: "@ + detail@,
        PersistenceError::Io { path, source } => "failed to access "@ + path@ + ": "@ + source@,
        PersistenceError::Json { path, source } => "failed to parse "@ + path@ + ": "@ + source@,
        PersistenceError::ChannelClosed => "persistence worker channel closed"@,
        PersistenceError::WorkerPanicked => "persistence worker panicked"@,
    }
}

impl PersistenceError {
    /// What the error says.
    pub fn message(&self) -> (message: String)
        ensures
            message@ == described(*self),
    {
        match self {
            PersistenceError::ConfigurationDirectoryUnavailable => {
                "configuration directory is unavailable".to_owned()
            },
            PersistenceError::UnsupportedVersion(version) => {
                let version = decimal_text(*version as u64);
                joined("unsupported configuration schema version ", version.as_str())
            },
            PersistenceError::InvalidGraph(detail) => joined(
                "persisted graph is invalid: ",
                detail.as_str(),
            ),
            PersistenceError::Io { path, source } => {
                let mut text = joined3("failed to access ", path.as_str(), ": ");
                text.append(source.as_str());
                text
            },
            PersistenceError::Json { path, source } => {
                let mut text = joined3("failed to parse ", path.as_str(), ": ");
                text.append(source.as_str());
                text
            },
            PersistenceError::ChannelClosed => "persistence worker channel closed".to_owned(),
            PersistenceError::WorkerPanicked => "persistence worker panicked".to_owned(),
        }
    }
}

/// Where a document came from.
#[derive(Clone, Copy, Debug, PartialEq, Eq, Structural)]
pub enum LoadSource {
    Default,
    Primary,
    Backup,
}

#[derive(Debug)]
pub struct LoadResult {
    pub document: SessionDocument,
    pub source: LoadSource,
    /// The digest of the bytes that were read, or zero.
    pub digest: u64,
}

/// The digest of bytes: FNV-1a.
pub open spec fn digest_of(bytes: Seq<u8>) -> u64
    decreases bytes.len(),
{
    if bytes.len() == 0 {
        0xcbf2_9ce4_8422_2325u64
    } else {
        let mixed = digest_of(bytes.drop_last()) ^ (bytes.last() as u64);
        ((mixed * 0x0000_0100_0000_01b3) % 0x1_0000_0000_0000_0000) as u64
    }
}

/// The digest of the bytes of a file, by which writes are told apart.
pub fn content_digest(bytes: &[u8]) -> (digest: u64)
    ensures
        digest == digest_of(bytes@),
{
    let mut hash: u64 = 0xcbf2_9ce4_8422_2325u64;
    let mut at: usize = 0;
    while at < bytes.len()
        invariant
            at <= bytes@.len(),
            hash == digest_of(bytes@.take(at as int)),
        decreases bytes@.len() - at,
    {
        assert(bytes@.take(at + 1).drop_last() =~= bytes@.take(at as int));
        assert(bytes@.take(at + 1).last() == bytes@[at as int]);
        let mixed: u64 = hash ^ (bytes[at] as u64);
        hash = mixed.wrapping_mul(0x0000_0100_0000_01b3u64);
        at = at + 1;
    }
    assert(bytes@.take(at as int) =~= bytes@);
    hash
}

/// What a settings file is, by its version.
#[derive(Clone, Copy, Debug, PartialEq, Eq, Structural)]
pub enum FileKind {
    /// It is no JSON.
    Unreadable,
    /// It is of the first version, of which nothing is taken over.
    Legacy,
    /// It holds a document of the current version.
    Current,
    Unsupported(u32),
}

/// What a file of a version is.
pub open spec fn kind_of_version(version: u32) -> FileKind {
    if version == 1 {
        FileKind::Legacy
    } else if version == SCHEMA_VERSION {
        FileKind::Current
    } else {
        FileKind::Unsupported(version)
    }
}

/// The version that a file says it is of; a number is cut to 32 bits.
pub open spec fn version_said(number: Option<u64>) -> u32 {
    match number {
        Some(number) => (number % 0x1_0000_0000) as u32,
        None => 0,
    }
}

/// What a file of a stated version is.
pub fn kind_of(number: Option<u64>) -> (kind: FileKind)
    ensures
        kind == kind_of_version(version_said(number)),
{
    let version: u32 = match number {
        Some(number) => (number % 0x1_0000_0000) as u32,
        None => 0,
    };
    if version == 1 {
        FileKind::Legacy
    } else if version == SCHEMA_VERSION {
        FileKind::Current
    } else {
        FileKind::Unsupported(version)
    }
}

/// What a file of bytes is.
pub open spec fn kind_of_bytes(bytes: Seq<u8>) -> FileKind {
    match json::json_number_under(bytes, "schema_version"@) {
        None => FileKind::Unreadable,
        Some(number) => kind_of_version(version_said(number)),
    }
}

/// What a settings file is, and its digest.
pub fn inspect_file(bytes: &[u8]) -> (result: (FileKind, u64))
    ensures
        result.0 == kind_of_bytes(bytes@),
        result.1 == digest_of(bytes@),
{
    let digest: u64 = content_digest(bytes);
    let kind = match json_number(bytes, "schema_version") {
        None => FileKind::Unreadable,
        Some(number) => kind_of(number),
    };
    (kind, digest)
}

/// Whether this comes of a file: `parsed` is the document in it, where it is of
/// the current version, or the message of the parser.
pub open spec fn loads_as(
    path: Seq<char>,
    kind: FileKind,
    digest: u64,
    parsed: Result<SessionDocument, String>,
    result: Result<(SessionDocument, u64), PersistenceError>,
) -> bool {
    match kind {
        FileKind::Unreadable => result matches Err(PersistenceError::Json { path: at, source })
            && at@ == path && (parsed matches Err(message) ==> source == message),
        FileKind::Legacy => result matches Ok((document, found)) && document.is_empty() && found
            == digest,
        FileKind::Unsupported(version) => result == Err::<
            (SessionDocument, u64),
            PersistenceError,
        >(PersistenceError::UnsupportedVersion(version)),
        FileKind::Current => match parsed {
            Ok(document) => result == (if document.schema_version == SCHEMA_VERSION {
                Ok::<(SessionDocument, u64), PersistenceError>((document, digest))
            } else {
                Err(PersistenceError::UnsupportedVersion(document.schema_version))
            }),
            Err(message) => result matches Err(PersistenceError::Json { path: at, source })
                && at@ == path && source == message,
        },
    }
}

/// What comes of a file: `parsed` is the document in it, where it is of the
/// current version, or the message of the parser.
pub fn load_file(
    path: &str,
    kind: FileKind,
    digest: u64,
    parsed: Result<SessionDocument, String>,
) -> (result: Result<(SessionDocument, u64), PersistenceError>)
    ensures
        loads_as(path@, kind, digest, parsed, result),
{
    match kind {
        FileKind::Unreadable => {
            let source = match parsed {
                Ok(_) => "not a document".to_owned(),
                Err(message) => message,
            };
            Err(PersistenceError::Json { path: path.to_owned(), source })
        },
        FileKind::Legacy => Ok((SessionDocument::default(), digest)),
        FileKind::Unsupported(version) => Err(PersistenceError::UnsupportedVersion(version)),
        FileKind::Current => match parsed {
            Ok(document) => match document.validate() {
                Ok(()) => Ok((document, digest)),
                Err(error) => Err(error),
            },
            Err(message) => Err(PersistenceError::Json { path: path.to_owned(), source: message }),
        },
    }
}

/// What loading does next.
#[derive(Debug)]
pub enum LoadStep {
    ReadPrimary,
    ReadBackup,
    Done(Result<LoadResult, PersistenceError>),
}

/// Begins loading: without a settings file there is an empty document.
pub fn begin_load(exists: bool) -> (step: LoadStep)
    ensures
        match step {
            LoadStep::ReadPrimary => exists,
            LoadStep::ReadBackup => false,
            LoadStep::Done(result) => !exists && (result matches Ok(loaded) && {
                &&& loaded.document.is_empty()
                &&& loaded.source == LoadSource::Default
                &&& loaded.digest == 0
            }),
        },
{
    if exists {
        LoadStep::ReadPrimary
    } else {
        LoadStep::Done(
            Ok(
                LoadResult {
                    document: SessionDocument::default(),
                    source: LoadSource::Default,
                    digest: 0,
                },
            ),
        )
    }
}

/// What follows the settings file.
pub open spec fn step_after_primary(
    read: Result<(SessionDocument, u64), PersistenceError>,
    backup_exists: bool,
) -> LoadStep {
    match read {
        Ok((document, digest)) => LoadStep::Done(
            Ok(LoadResult { document, source: LoadSource::Primary, digest }),
        ),
        Err(error) => if backup_exists {
            LoadStep::ReadBackup
        } else {
            LoadStep::Done(Err(error))
        },
    }
}

/// Goes on after the settings file: where it cannot be used the backup is read,
/// if there is one.
pub fn after_primary(
    read: Result<(SessionDocument, u64), PersistenceError>,
    backup_exists: bool,
) -> (step: LoadStep)
    ensures
        step == step_after_primary(read, backup_exists),
{
    match read {
        Ok((document, digest)) => LoadStep::Done(
            Ok(LoadResult { document, source: LoadSource::Primary, digest }),
        ),
        Err(error) => if backup_exists {
            LoadStep::ReadBackup
        } else {
            LoadStep::Done(Err(error))
        },
    }
}

/// Ends loading with the backup.
pub fn after_backup(read: Result<(SessionDocument, u64), PersistenceError>) -> (result: Result<
    LoadResult,
    PersistenceError,
>)
    ensures
        result == (match read {
            Ok((document, digest)) => Ok::<LoadResult, PersistenceError>(
                LoadResult { document, source: LoadSource::Backup, digest },
            ),
            Err(error) => Err(error),
        }),
{
    match read {
        Ok((document, digest)) => Ok(LoadResult { document, source: LoadSource::Backup, digest }),
        Err(error) => Err(error),
    }
}

/// A path without what follows its last name: slashes, and dots that stand for
/// the directory itself.
pub open spec fn bare(path: Seq<char>) -> Seq<char>
    decreases path.len(),
{
    if path.len() > 0 && path.last() == '/' {
        bare(path.drop_last())
    } else if path.len() > 1 && path.last() == '.' && path[path.len() - 2] == '/' {
        bare(path.drop_last())
    } else {
        path
    }
}

/// Where the last name begins in a bare path.
pub open spec fn name_start(path: Seq<char>) -> int {
    match text::last_place(path, '/') {
        Some(at) => at + 1,
        None => 0,
    }
}

/// Whether a bare path ends in the name of a file. Dots that stand for a
/// directory are no name.
pub open spec fn names_a_file(path: Seq<char>) -> bool {
    let name = path.skip(name_start(path));
    name.len() > 0 && name != "."@ && name != ".."@
}

/// Where the extension begins in a bare path, or its end. A dot at the
/// beginning of the name begins no extension.
pub open spec fn extension_start(path: Seq<char>) -> int {
    match text::last_place(path, '.') {
        Some(at) => if at > name_start(path) {
            at
        } else {
            path.len() as int
        },
        None => path.len() as int,
    }
}

/// A path with another extension, where it ends in the name of a file.
pub open spec fn extended(path: Seq<char>, extension: Seq<char>) -> Seq<char> {
    if !names_a_file(bare(path)) {
        path
    } else {
        let stem = bare(path).take(extension_start(bare(path)));
        if extension.len() == 0 {
            stem
        } else {
            stem + "."@ + extension
        }
    }
}

fn bare_path(path: &str) -> (result: &str)
    ensures
        result@ == bare(path@),
{
    let mut end: usize = path.unicode_len();
    let mut open = true;
    assert(path@.take(end as int) =~= path@);
    while open && end > 0
        invariant
            end <= path@.len(),
            bare(path@) == bare(path@.take(end as int)),
            !open ==> bare(path@.take(end as int)) == path@.take(end as int),
        decreases
                end + if open {
                    1int
                } else {
                    0int
                },
    {
        let ghost text = path@.take(end as int);
        assert(text.drop_last() =~= path@.take(end - 1));
        let last = path.get_char(end - 1);
        if last == '/' {
            end = end - 1;
        } else if last == '.' && end > 1 {
            if path.get_char(end - 2) == '/' {
                end = end - 1;
            } else {
                open = false;
            }
        } else {
            open = false;
        }
    }
    let result = path.substring_char(0, end);
    assert(result@ =~= path@.take(end as int));
    result
}

/// Gives the file of a path another extension. Directories end in a slash.
pub fn with_extension(path: &str, extension: &str) -> (result: String)
    ensures
        result@ == extended(path@, extension@),
{
    let whole = bare_path(path);
    let total: usize = whole.unicode_len();
    let start: usize = match find_last(whole, '/') {
        Some(at) => at + 1,
        None => 0,
    };
    let name = whole.substring_char(start, total);
    assert(name@ =~= whole@.skip(start as int));
    if start == total || same_text(name, ".") || same_text(name, "..") {
        return path.to_owned();
    }
    let end: usize = match find_last(whole, '.') {
        Some(at) => if at > start {
            at
        } else {
            total
        },
        None => total,
    };
    assert(end == extension_start(whole@));
    let stem = whole.substring_char(0, end);
    assert(stem@ =~= whole@.take(end as int));
    if extension.unicode_len() == 0 {
        return stem.to_owned();
    }
    joined3(stem, ".", extension)
}

/// The backup of a settings file.
pub fn backup_path(path: &str) -> (result: String)
    ensures
        result@ == extended(path@, "json.bak"@),
{
    with_extension(path, "json.bak")
}

/// A fresh name beside a file, for writing before it takes the place of the
/// file. The name has a random part.
pub fn temporary_path(path: &str) -> (result: String)
    ensures
        exists|random: u128|
            ids::nibble(random, 12) == 4 && result@ == extended(
                path@,
                "tmp-"@ + #[trigger] ids::hyphenated(random),
            ),
{
    let digits = random_text();
    let extension = joined("tmp-", digits.as_str());
    let result = with_extension(path, extension.as_str());
    result
}

/// A step of replacing the settings file.
#[derive(Debug)]
pub enum SaveStep {
    CreateDirectory,
    WriteDocument { to: String },
    Copy { from: String, to: String },
    Sync { path: String },
    Rename { from: String, to: String },
    SyncDirectory,
}

/// A step with its paths as sequences.
pub enum StepModel {
    CreateDirectory,
    WriteDocument { to: Seq<char> },
    Copy { from: Seq<char>, to: Seq<char> },
    Sync { path: Seq<char> },
    Rename { from: Seq<char>, to: Seq<char> },
    SyncDirectory,
}

impl View for SaveStep {
    type V = StepModel;

    open spec fn view(&self) -> StepModel {
        match self {
            SaveStep::CreateDirectory => StepModel::CreateDirectory,
            SaveStep::WriteDocument { to } => StepModel::WriteDocument { to: to@ },
            SaveStep::Copy { from, to } => StepModel::Copy { from: from@, to: to@ },
            SaveStep::Sync { path } => StepModel::Sync { path: path@ },
            SaveStep::Rename { from, to } => StepModel::Rename { from: from@, to: to@ },
            SaveStep::SyncDirectory => StepModel::SyncDirectory,
        }
    }
}

/// The file that a step changes.
pub open spec fn changed_by(step: StepModel) -> Option<Seq<char>> {
    match step {
        StepModel::WriteDocument { to } => Some(to),
        StepModel::Copy { to, .. } => Some(to),
        StepModel::Rename { to, .. } => Some(to),
        _ => None,
    }
}

/// The steps in which a settings file is replaced: the new one is written
/// beside it, the old one becomes the backup, and only then the new one takes
/// its place.
pub open spec fn replacement(
    path: Seq<char>,
    temporary: Seq<char>,
    backup_temporary: Seq<char>,
    exists: bool,
) -> Seq<StepModel> {
    let backup = extended(path, "json.bak"@);
    let begin = seq![
        StepModel::CreateDirectory,
        StepModel::WriteDocument { to: temporary },
    ];
    let keep = if exists {
        seq![
            StepModel::Copy { from: path, to: backup_temporary },
            StepModel::Sync { path: backup_temporary },
            StepModel::Rename { from: backup_temporary, to: backup },
        ]
    } else {
        Seq::empty()
    };
    begin + keep + seq![StepModel::Rename { from: temporary, to: path }, StepModel::SyncDirectory]
}

/// The views of steps.
pub open spec fn step_models(steps: Seq<SaveStep>) -> Seq<StepModel> {
    Seq::new(steps.len(), |i: int| steps[i]@)
}

/// The steps in which a settings file is replaced, or the reason why it cannot
/// be: a document of another version, or a path without a directory.
pub fn save_steps(
    document: &SessionDocument,
    path: &str,
    has_parent: bool,
    exists: bool,
    temporary: &str,
    backup_temporary: &str,
) -> (result: Result<Vec<SaveStep>, PersistenceError>)
    ensures
        match result {
            Ok(steps) => {
                &&& document.schema_version == SCHEMA_VERSION
                &&& has_parent
                &&& step_models(steps@) == replacement(
                    path@,
                    temporary@,
                    backup_temporary@,
                    exists,
                )
            },
            Err(error) => if document.schema_version != SCHEMA_VERSION {
                error == PersistenceError::UnsupportedVersion(document.schema_version)
            } else {
                !has_parent && error == PersistenceError::ConfigurationDirectoryUnavailable
            },
        },
{
    match document.validate() {
        Ok(()) => {},
        Err(error) => {
            return Err(error);
        },
    }
    if !has_parent {
        return Err(PersistenceError::ConfigurationDirectoryUnavailable);
    }
    let mut steps: Vec<SaveStep> = Vec::new();
    steps.push(SaveStep::CreateDirectory);
    steps.push(SaveStep::WriteDocument { to: temporary.to_owned() });
    if exists {
        let backup = backup_path(path);
        steps.push(
            SaveStep::Copy { from: path.to_owned(), to: backup_temporary.to_owned() },
        );
        steps.push(SaveStep::Sync { path: backup_temporary.to_owned() });
        steps.push(SaveStep::Rename { from: backup_temporary.to_owned(), to: backup });
    }
    steps.push(SaveStep::Rename { from: temporary.to_owned(), to: path.to_owned() });
    steps.push(SaveStep::SyncDirectory);
    assert(step_models(steps@) =~= replacement(path@, temporary@, backup_temporary@, exists));
    Ok(steps)
}

/// The settings file is changed by one step only, the last but one, and by then
/// the new file is written and the old one is kept as the backup.
pub proof fn law_settings_file_is_replaced_last(
    path: Seq<char>,
    temporary: Seq<char>,
    backup_temporary: Seq<char>,
    exists: bool,
    at: int,
)
    requires
        temporary != path,
        backup_temporary != path,
        extended(path, "json.bak"@) != path,
        0 <= at < replacement(path, temporary, backup_temporary, exists).len(),
    ensures
        ({
            let steps = replacement(path, temporary, backup_temporary, exists);
            let last = steps.len() - 2;
            &&& changed_by(steps[at]) == Some(path) <==> at == last
            &&& steps[last] == (StepModel::Rename { from: temporary, to: path })
            &&& steps[1] == (StepModel::WriteDocument { to: temporary })
            &&& exists ==> steps[last - 1] == (StepModel::Rename {
                from: backup_temporary,
                to: extended(path, "json.bak"@),
            })
        }),
{
}

/// The files after a step; `written` is the document as it is written.
pub open spec fn files_after(
    files: Map<Seq<char>, Seq<u8>>,
    step: StepModel,
    written: Seq<u8>,
) -> Map<Seq<char>, Seq<u8>> {
    match step {
        StepModel::WriteDocument { to } => files.insert(to, written),
        StepModel::Copy { from, to } => files.insert(to, files[from]),
        StepModel::Rename { from, to } => files.remove(from).insert(to, files[from]),
        _ => files,
    }
}

/// The files after steps.
pub open spec fn files_after_all(
    files: Map<Seq<char>, Seq<u8>>,
    steps: Seq<StepModel>,
    written: Seq<u8>,
) -> Map<Seq<char>, Seq<u8>>
    decreases steps.len(),
{
    if steps.len() == 0 {
        files
    } else {
        files_after(files_after_all(files, steps.drop_last(), written), steps.last(), written)
    }
}

/// After the steps of a save the settings file is what was written, and what was
/// there before is the backup.
pub proof fn law_a_save_keeps_both_documents(
    files: Map<Seq<char>, Seq<u8>>,
    path: Seq<char>,
    temporary: Seq<char>,
    backup_temporary: Seq<char>,
    written: Seq<u8>,
)
    requires
        ({
            let backup = extended(path, "json.bak"@);
            &&& temporary != path && temporary != backup && temporary != backup_temporary
            &&& backup_temporary != path
            &&& backup != path
        }),
    ensures
        ({
            let exists = files.contains_key(path);
            let steps = replacement(path, temporary, backup_temporary, exists);
            let after = files_after_all(files, steps, written);
            &&& after.contains_key(path)
            &&& after[path] == written
            &&& exists ==> after.contains_key(extended(path, "json.bak"@)) && after[extended(
                path,
                "json.bak"@,
            )] == files[path]
        }),
{
    let exists = files.contains_key(path);
    let steps = replacement(path, temporary, backup_temporary, exists);
    let backup = extended(path, "json.bak"@);
    let count = steps.len() as int;
    assert forall|n: int| 0 < n <= count implies #[trigger] files_after_all(
        files,
        steps.take(n),
        written,
    ) == files_after(files_after_all(files, steps.take(n - 1), written), steps[n - 1], written) by {
        assert(steps.take(n).drop_last() =~= steps.take(n - 1));
    }
    assert(steps.take(count) =~= steps);
    let begun = files_after_all(files, steps.take(2), written);
    assert(files_after_all(files, steps.take(0), written) == files);
    assert(files_after_all(files, steps.take(1), written) == files);
    assert(begun == files.insert(temporary, written));
    if exists {
        let copied = files_after_all(files, steps.take(3), written);
        assert(copied == begun.insert(backup_temporary, files[path]));
        assert(files_after_all(files, steps.take(4), written) == copied);
        let kept = files_after_all(files, steps.take(5), written);
        assert(kept == copied.remove(backup_temporary).insert(backup, files[path]));
        let renamed = files_after_all(files, steps.take(6), written);
        assert(renamed == kept.remove(temporary).insert(path, written));
        assert(files_after_all(files, steps.take(7), written) == renamed);
    } else {
        let renamed = files_after_all(files, steps.take(3), written);
        assert(renamed == begun.remove(temporary).insert(path, written));
        assert(files_after_all(files, steps.take(4), written) == renamed);
    }
}

/// Saving and loading loses nothing: after a save, a load takes the settings file
/// and gives the document back, with the digest of what was written. It is told
/// that the written bytes state the version of the document, and that the parser
/// gives back what was written.
pub proof fn law_a_load_after_a_save_gives_the_document_back(
    files: Map<Seq<char>, Seq<u8>>,
    path: Seq<char>,
    temporary: Seq<char>,
    backup_temporary: Seq<char>,
    document: SessionDocument,
    written: Seq<u8>,
    parsed: Result<SessionDocument, String>,
    read: Result<(SessionDocument, u64), PersistenceError>,
    backup_exists: bool,
)
    requires
        ({
            let backup = extended(path, "json.bak"@);
            &&& temporary != path && temporary != backup && temporary != backup_temporary
            &&& backup_temporary != path
            &&& backup != path
        }),
        document.schema_version == SCHEMA_VERSION,
        json::json_number_under(written, "schema_version"@) == Some(Some(SCHEMA_VERSION as u64)),
        parsed == Ok::<SessionDocument, String>(document),
        ({
            let steps = replacement(path, temporary, backup_temporary, files.contains_key(path));
            let bytes = files_after_all(files, steps, written)[path];
            loads_as(path, kind_of_bytes(bytes), digest_of(bytes), parsed, read)
        }),
    ensures
        files_after_all(
            files,
            replacement(path, temporary, backup_temporary, files.contains_key(path)),
            written,
        ).contains_key(path),
        step_after_primary(read, backup_exists) == LoadStep::Done(
            Ok(
                LoadResult {
                    document,
                    source: LoadSource::Primary,
                    digest: digest_of(written),
                },
            ),
        ),
{
    law_a_save_keeps_both_documents(files, path, temporary, backup_temporary, written);
}

/// Whether the file of an earlier name takes the place of the settings file.
pub fn migrates_legacy(settings_exist: bool, legacy_exists: bool) -> (migrates: bool)
    ensures
        migrates == (!settings_exist && legacy_exists),
{
    !settings_exist && legacy_exists
}

/// Whether a change in a directory touches the settings file. The arguments are
/// names of files.
pub fn touches_settings(names: &Vec<String>, settings: &str) -> (touched: bool)
    ensures
        touched == exists|i: int| 0 <= i < names@.len() && (#[trigger] names@[i])@ == settings@,
{
    let mut at: usize = 0;
    while at < names.len()
        invariant
            at <= names@.len(),
            forall|i: int| 0 <= i < at ==> (#[trigger] names@[i])@ != settings@,
        decreases names@.len() - at,
    {
        if same_text(names[at].as_str(), settings) {
            assert(names@[at as int]@ == settings@);
            return true;
        }
        at = at + 1;
    }
    false
}

/// The settings file at a path.
#[derive(Debug)]
pub struct SessionStore {
    path: String,
}

impl SessionStore {
    pub closed spec fn location(self) -> Seq<char> {
        self.path@
    }

    pub fn new(path: &str) -> (store: Self)
        ensures
            store.location() == path@,
    {
        SessionStore { path: path.to_owned() }
    }

    pub fn path(&self) -> (path: &str)
        ensures
            path@ == self.location(),
    {
        self.path.as_str()
    }
}

/// A file of the first version is left behind, one of the second is read, and any
/// other one is refused with its own number; a file that states no version is of
/// version zero, and a number that fits is taken as it is.
pub proof fn law_a_file_is_known_by_its_version(bytes: Seq<u8>, number: Option<u64>, version: u32)
    ensures
        version == 1 ==> kind_of_version(version) == FileKind::Legacy,
        version == 2 ==> kind_of_version(version) == FileKind::Current,
        version != 1 && version != 2 ==> kind_of_version(version) == FileKind::Unsupported(
            version,
        ),
        number is None ==> version_said(number) == 0,
        number matches Some(stated) ==> stated <= u32::MAX ==> version_said(number) == stated,
        number matches Some(stated) ==> version_said(number) as int == stated as int
            % 0x1_0000_0000,
        json::json_number_under(bytes, "schema_version"@) is None ==> kind_of_bytes(bytes)
            == FileKind::Unreadable,
        json::json_number_under(bytes, "schema_version"@) == Some(number) ==> kind_of_bytes(bytes)
            == kind_of_version(version_said(number)),
{
}

/// A byte is mixed into the digest of the bytes before it and spread by the prime;
/// the digest of nothing is the offset.
pub proof fn law_a_digest_grows_byte_by_byte(bytes: Seq<u8>, byte: u8)
    ensures
        digest_of(Seq::empty()) == 0xcbf2_9ce4_8422_2325u64,
        digest_of(bytes.push(byte)) as int == ((digest_of(bytes) ^ (byte as u64)) as int
            * 0x0000_0100_0000_01b3) % 0x1_0000_0000_0000_0000,
{
    assert(bytes.push(byte).drop_last() =~= bytes);
}

/// A file of the current version gives its document, with the digest of the file,
/// unless the document says otherwise of itself; one of the first version gives an
/// empty one; every other file is an error that names the path or the version.
pub proof fn law_a_file_loads_by_its_kind(
    path: Seq<char>,
    kind: FileKind,
    digest: u64,
    parsed: Result<SessionDocument, String>,
    result: Result<(SessionDocument, u64), PersistenceError>,
)
    requires
        loads_as(path, kind, digest, parsed, result),
    ensures
        kind is Unreadable ==> (result matches Err(PersistenceError::Json { path: at, .. }) && at@
            == path),
        kind is Legacy ==> (result matches Ok((document, found)) && document.is_empty() && found
            == digest),
        kind matches FileKind::Unsupported(version) ==> (result matches Err(
            PersistenceError::UnsupportedVersion(refused),
        ) && refused == version),
        parsed matches Ok(document) ==> kind is Current && document.schema_version == 2 ==> (
        result matches Ok((loaded, found)) && loaded == document && found == digest),
        parsed matches Ok(document) ==> kind is Current && document.schema_version != 2 ==> (
        result matches Err(PersistenceError::UnsupportedVersion(refused)) && refused
            == document.schema_version),
        parsed matches Err(message) ==> kind is Current || kind is Unreadable ==> (
        result matches Err(PersistenceError::Json { path: at, source }) && at@ == path && source
            == message),
{
}

/// Every error says what it is about.
pub proof fn law_errors_say_what_they_are_about(version: u32, first: String, second: String)
    ensures
        described(PersistenceError::ConfigurationDirectoryUnavailable)
            == "configuration directory is unavailable"@,
        described(PersistenceError::UnsupportedVersion(version))
            == "unsupported configuration schema version "@ + text::decimal(version as nat),
        described(PersistenceError::InvalidGraph(first)) == "persisted graph is invalid: "@
            + first@,
        described((PersistenceError::Io { path: first, source: second })) == "failed to access "@
            + first@ + ": "@ + second@,
        described((PersistenceError::Json { path: first, source: second })) == "failed to parse "@
            + first@ + ": "@ + second@,
        described(PersistenceError::ChannelClosed) == "persistence worker channel closed"@,
        described(PersistenceError::WorkerPanicked) == "persistence worker panicked"@,
{
}

/// A settings file that was read is taken with its digest; the backup is read
/// exactly where the settings file failed and there is one, and otherwise the
/// failure stands.
pub proof fn law_the_backup_stands_in_for_the_settings(
    read: Result<(SessionDocument, u64), PersistenceError>,
    backup_exists: bool,
)
    ensures
        read matches Ok((document, digest)) ==> step_after_primary(read, backup_exists)
            == LoadStep::Done(
            Ok((LoadResult { document, source: LoadSource::Primary, digest })),
        ),
        read matches Err(error) ==> backup_exists ==> step_after_primary(read, backup_exists)
            is ReadBackup,
        read matches Err(error) ==> !backup_exists ==> step_after_primary(read, backup_exists)
            == LoadStep::Done(Err(error)),
{
}

/// A file is replaced in seven steps where there is one, and in four where there
/// is none: the old file is copied, the copy is on the disk before it becomes the
/// backup, and the directory is on the disk at the end.
pub proof fn law_a_file_is_replaced_step_by_step(
    path: Seq<char>,
    temporary: Seq<char>,
    backup_temporary: Seq<char>,
    exists: bool,
)
    ensures
        ({
            let steps = replacement(path, temporary, backup_temporary, exists);
            &&& steps.len() == if exists {
                7int
            } else {
                4
            }
            &&& steps[0] is CreateDirectory
            &&& steps[1] == (StepModel::WriteDocument { to: temporary })
            &&& exists ==> steps[2] == (StepModel::Copy { from: path, to: backup_temporary })
            &&& exists ==> steps[3] == (StepModel::Sync { path: backup_temporary })
            &&& exists ==> steps[4] == (StepModel::Rename {
                from: backup_temporary,
                to: extended(path, "json.bak"@),
            })
            &&& steps[steps.len() - 2] == (StepModel::Rename { from: temporary, to: path })
            &&& steps[steps.len() - 1] is SyncDirectory
        }),
{
}

/// Writing and copying leave every other file alone; a file that is renamed is
/// gone under its old name.
pub proof fn law_a_step_changes_its_own_file(
    files: Map<Seq<char>, Seq<u8>>,
    written: Seq<u8>,
    from: Seq<char>,
    to: Seq<char>,
    other: Seq<char>,
)
    requires
        from != to,
    ensures
        files_after(files, (StepModel::WriteDocument { to }), written)[to] == written,
        files_after(files, (StepModel::Copy { from, to }), written)[to] == files[from],
        files_after(files, (StepModel::Rename { from, to }), written)[to] == files[from],
        !files_after(files, (StepModel::Rename { from, to }), written).contains_key(from),
        other != to ==> files_after(files, (StepModel::WriteDocument { to }), written)[other]
            == files[other],
        other != to ==> files_after(files, (StepModel::Copy { from, to }), written)[other]
            == files[other],
        other != to && other != from ==> files_after(
            files,
            (StepModel::Rename { from, to }),
            written,
        )[other] == files[other],
        files_after(files, StepModel::CreateDirectory, written) == files,
        files_after(files, StepModel::SyncDirectory, written) == files,
        files_after(files, (StepModel::Sync { path: other }), written) == files,
        changed_by((StepModel::WriteDocument { to })) == Some(to),
        changed_by((StepModel::Copy { from, to })) == Some(to),
        changed_by((StepModel::Rename { from, to })) == Some(to),
        changed_by((StepModel::Sync { path: other })) is None,
        changed_by(StepModel::CreateDirectory) is None,
        changed_by(StepModel::SyncDirectory) is None,
{
}

/// Another extension takes the place of what follows the last dot of the name,
/// and the directory and the rest of the name stay; no extension leaves the dot
/// out too.
pub proof fn law_an_extension_takes_the_place_of_another(
    path: Seq<char>,
    extension: Seq<char>,
    slash: int,
    dot: int,
)
    requires
        0 <= slash,
        slash + 1 < dot < path.len() - 1,
        path[slash] == '/',
        path[dot] == '.',
        forall|i: int| slash < i < path.len() ==> (#[trigger] path[i]) != '/',
        forall|i: int| dot < i < path.len() ==> (#[trigger] path[i]) != '.',
    ensures
        extension.len() > 0 ==> extended(path, extension) == path.take(dot) + "."@ + extension,
        extension.len() == 0 ==> extended(path, extension) == path.take(dot),
{
    assert(path.last() == path[path.len() - 1]);
    assert(bare(path) == path);
    text::law_the_last_place_is_found(path, '/');
    text::law_the_last_place_is_found(path, '.');
    reveal_strlit(".");
    reveal_strlit("..");
    assert(path.skip(slash + 1).len() >= 3);
}

/// A name without a dot gets the extension at its end, and slashes at the end of a
/// path are of no account.
pub proof fn law_an_extension_is_put_at_the_end(
    path: Seq<char>,
    extension: Seq<char>,
    slash: int,
)
    requires
        0 <= slash < path.len() - 1,
        path[slash] == '/',
        extension.len() > 0,
        forall|i: int| slash < i < path.len() ==> (#[trigger] path[i]) != '/',
        forall|i: int| 0 <= i < path.len() ==> (#[trigger] path[i]) != '.',
    ensures
        extended(path, extension) == path + "."@ + extension,
        extended(path.push('/'), extension) == path + "."@ + extension,
{
    assert(path.last() == path[path.len() - 1]);
    assert(bare(path) == path);
    assert(path.push('/').drop_last() =~= path);
    assert(path.push('/').last() == '/');
    assert(bare(path.push('/')) == bare(path));
    text::law_the_last_place_is_found(path, '/');
    text::law_the_last_place_is_found(path, '.');
    reveal_strlit(".");
    reveal_strlit("..");
    let name = path.skip(slash + 1);
    assert(name[0] == path[slash + 1]);
    assert(path.take(path.len() as int) =~= path);
}

} // verus!
