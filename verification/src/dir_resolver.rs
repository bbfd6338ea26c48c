//! Replaces the directory tokens at the start of a path, such as
//! `%APPDATA%`, by the directories that they stand for.

use crate::text::{chars_of, push_chars, starts_with, string_of};
use vstd::prelude::*;

verus! {

/// The directories of the host that tokens may stand for. One that is not
/// known leaves its tokens as they are.
#[derive(Debug)]
pub struct KnownFolders {
    pub data_dir: Option<String>,
    pub data_local_dir: Option<String>,
    pub home_dir: Option<String>,
    pub temp_dir: Option<String>,
}

/// `dirs::data_dir`: the user's data directory, if the system names one.
#[verifier::external_body]
fn data_dir() -> Option<String> {
    dirs::data_dir().map(|dir| dir.to_string_lossy().into_owned())
}

/// `dirs::data_local_dir`: the user's local data directory, if the system
/// names one.
#[verifier::external_body]
fn data_local_dir() -> Option<String> {
    dirs::data_local_dir().map(|dir| dir.to_string_lossy().into_owned())
}

/// `dirs::home_dir`: the user's home directory, if the system names one.
#[verifier::external_body]
fn home_dir() -> Option<String> {
    dirs::home_dir().map(|dir| dir.to_string_lossy().into_owned())
}

/// The directories of this host and this user, with the given directory for
/// temporary files.
pub fn known_folders(temp_dir: Option<String>) -> (folders: KnownFolders)
    ensures
        folders.temp_dir == temp_dir,
{
    KnownFolders {
        data_dir: data_dir(),
        data_local_dir: data_local_dir(),
        home_dir: home_dir(),
        temp_dir,
    }
}

/// The characters that part the components of a path.
pub open spec fn is_separator(c: char) -> bool {
    c == '\\' || c == '/'
}

/// The path begins with the component `prefix`: with its characters, and
/// then the path ends or a separator follows.
pub open spec fn begins_with_component(path: Seq<char>, prefix: Seq<char>) -> bool {
    prefix.is_prefix_of(path) && (path.len() == prefix.len() || is_separator(
        path[prefix.len() as int],
    ))
}

/// What follows the first component `prefix` of the path and its separator.
pub open spec fn after_component(path: Seq<char>, prefix: Seq<char>) -> Seq<char> {
    if path.len() > prefix.len() {
        path.skip(prefix.len() as int + 1)
    } else {
        Seq::empty()
    }
}

/// The directory with `rest` below it: the directory alone where `rest` is
/// empty, else the two with one separator between them.
pub open spec fn joined(directory: Seq<char>, rest: Seq<char>) -> Seq<char> {
    if rest.len() == 0 {
        directory
    } else if directory.len() > 0 && is_separator(directory.last()) {
        directory + rest
    } else {
        directory + seq!['\\'] + rest
    }
}

/// The path with its first component replaced by the directory, where that
/// component is the token and the directory is known; else the path.
pub open spec fn resolved_one(
    path: Seq<char>,
    prefix: Seq<char>,
    prefix_resolved: Option<Seq<char>>,
) -> Seq<char> {
    match prefix_resolved {
        Some(directory) if begins_with_component(path, prefix) => joined(
            directory,
            after_component(path, prefix),
        ),
        _ => path,
    }
}

/// Replaces one token at the start of the path.
pub fn resolve_one(path: String, prefix: &str, prefix_resolved: &Option<String>) -> (resolved:
    String)
    ensures
        resolved@ == resolved_one(path@, prefix@, prefix_resolved.deep_view()),
{
    let directory = match prefix_resolved {
        None => {
            return path;
        },
        Some(directory) => chars_of(directory.as_str()),
    };
    let chars = chars_of(path.as_str());
    let token = chars_of(prefix);
    if !starts_with(chars.as_slice(), token.as_slice()) {
        return path;
    }
    if chars.len() > token.len() {
        let next = chars[token.len()];
        if !(next == '\\' || next == '/') {
            return path;
        }
    }
    let mut out: Vec<char> = Vec::new();
    push_chars(&mut out, directory.as_slice());
    if chars.len() > token.len() && chars.len() - token.len() > 1 {
        let last_is_separator = directory.len() > 0 && (directory[directory.len() - 1] == '\\'
            || directory[directory.len() - 1] == '/');
        if !last_is_separator {
            out.push('\\');
        }
        let mut at: usize = token.len() + 1;
        let ghost head = out@;
        while at < chars.len()
            invariant
                token.len() + 1 <= at <= chars.len(),
                out@ == head + chars@.subrange(token.len() + 1, at as int),
            decreases chars.len() - at,
        {
            out.push(chars[at]);
            at += 1;
            assert(out@ =~= head + chars@.subrange(token.len() + 1, at as int));
        }
        assert(chars@.subrange(token.len() + 1, at as int) =~= chars@.skip(token.len() + 1));
        assert(out@ =~= joined(directory@, after_component(path@, prefix@)));
    } else {
        assert(after_component(path@, prefix@) =~= Seq::<char>::empty());
    }
    string_of(out.as_slice())
}

/// One line of the table of tokens: the token, and the directory that it
/// stands for where that is known.
pub type TokenLine = (String, Option<String>);

/// The table with one more line.
pub open spec fn with_line(
    table: Seq<(Seq<char>, Option<Seq<char>>)>,
    token: Seq<char>,
    directory: Option<Seq<char>>,
) -> Seq<(Seq<char>, Option<Seq<char>>)> {
    table.push((token, directory))
}

/// The table of tokens, in the order in which they are tried.
pub open spec fn token_table(folders: KnownFolders) -> Seq<(Seq<char>, Option<Seq<char>>)> {
    let data = folders.data_dir.deep_view();
    let local = folders.data_local_dir.deep_view();
    let home = folders.home_dir.deep_view();
    let temp = folders.temp_dir.deep_view();
    let t0 = Seq::<(Seq<char>, Option<Seq<char>>)>::empty();
    let t1 = with_line(t0, "%APPDATA%"@, data);
    let t2 = with_line(t1, "%AppData%"@, data);
    let t3 = with_line(t2, "%ALLUSERSPROFILE%"@, Some("C:/ProgramData"@));
    let t4 = with_line(t3, "%AllUsersProfile%"@, Some("C:/ProgramData"@));
    let t5 = with_line(t4, "%COMMONPROGRAMFILES%"@, Some("C:/Program Files/Common Files"@));
    let t6 = with_line(
        t5,
        "%COMMONPROGRAMFILES(x86)%"@,
        Some("C:/Program Files (x86)/Common Files"@),
    );
    let t7 = with_line(t6, "%LOCALAPPDATA%"@, local);
    let t8 = with_line(t7, "%LocalAppData%"@, local);
    let t9 = with_line(t8, "%PROGRAMFILES%"@, Some("C:/Program Files"@));
    let t10 = with_line(t9, "%PROGRAMFILES(x86)%"@, Some("C:/Program Files (x86)"@));
    let t11 = with_line(t10, "%ProgramFiles%"@, Some("C:/Program Files"@));
    let t12 = with_line(t11, "%ProgramFiles(x86)%"@, Some("C:/Program Files (x86)"@));
    let t13 = with_line(t12, "%ProgramData%"@, Some("C:/ProgramData"@));
    let t14 = with_line(t13, "%PROGRAMDATA%"@, Some("C:/ProgramData"@));
    let t15 = with_line(t14, "%Public%"@, Some("C:/Users/Public"@));
    let t16 = with_line(t15, "%PUBLIC%"@, Some("C:/Users/Public"@));
    let t17 = with_line(t16, "%HomeDrive%"@, Some("C:"@));
    let t18 = with_line(t17, "%HOMEDRIVE%"@, Some("C:"@));
    let t19 = with_line(t18, "%SystemDrive%"@, Some("C:"@));
    let t20 = with_line(t19, "%SYSTEMDRIVE%"@, Some("C:"@));
    let t21 = with_line(t20, "%SystemRoot%"@, Some("C:/Windows"@));
    let t22 = with_line(t21, "%SYSTEMROOT%"@, Some("C:/Windows"@));
    let t23 = with_line(t22, "%UserProfile%"@, home);
    let t24 = with_line(t23, "%USERPROFILE%"@, home);
    let t25 = with_line(t24, "%Temp%"@, temp);
    with_line(t25, "%TEMP%"@, temp)
}

/// The path after the first `upto` lines of the table were applied to it,
/// one after the other.
pub open spec fn resolved_by(
    path: Seq<char>,
    table: Seq<(Seq<char>, Option<Seq<char>>)>,
    upto: nat,
) -> Seq<char>
    decreases upto,
{
    if upto == 0 || upto > table.len() {
        path
    } else {
        resolved_one(resolved_by(path, table, (upto - 1) as nat), table[upto - 1].0, table[upto - 1].1)
    }
}

/// The path with the directory tokens at its start replaced.
pub open spec fn resolved(path: Seq<char>, folders: KnownFolders) -> Seq<char> {
    resolved_by(path, token_table(folders), token_table(folders).len())
}

/// Adds a line to the table.
fn add_line(table: &mut Vec<TokenLine>, token: &str, directory: Option<String>)
    ensures
        final(table).deep_view() == with_line(old(table).deep_view(), token@, directory.deep_view()),
{
    table.push((token.to_string(), directory));
    assert(table.deep_view() =~= with_line(old(table).deep_view(), token@, directory.deep_view()));
}

/// A copy of a directory, or a fixed one.
fn copy_dir(directory: &Option<String>) -> (copy: Option<String>)
    ensures
        copy.deep_view() == directory.deep_view(),
{
    match directory {
        Some(path) => Some(path.clone()),
        None => None,
    }
}

/// A fixed directory.
fn fixed(directory: &str) -> (dir: Option<String>)
    ensures
        dir.deep_view() == Some(directory@),
{
    Some(directory.to_string())
}

/// The table of tokens for this host.
pub fn build_token_table(folders: &KnownFolders) -> (table: Vec<TokenLine>)
    ensures
        table.deep_view() == token_table(*folders),
{
    let mut table: Vec<TokenLine> = Vec::new();
    assert(table.deep_view() =~= Seq::<(Seq<char>, Option<Seq<char>>)>::empty());
    add_line(&mut table, "%APPDATA%", copy_dir(&folders.data_dir));
    add_line(&mut table, "%AppData%", copy_dir(&folders.data_dir));
    add_line(&mut table, "%ALLUSERSPROFILE%", fixed("C:/ProgramData"));
    add_line(&mut table, "%AllUsersProfile%", fixed("C:/ProgramData"));
    add_line(&mut table, "%COMMONPROGRAMFILES%", fixed("C:/Program Files/Common Files"));
    add_line(&mut table, "%COMMONPROGRAMFILES(x86)%", fixed("C:/Program Files (x86)/Common Files"));
    add_line(&mut table, "%LOCALAPPDATA%", copy_dir(&folders.data_local_dir));
    add_line(&mut table, "%LocalAppData%", copy_dir(&folders.data_local_dir));
    add_line(&mut table, "%PROGRAMFILES%", fixed("C:/Program Files"));
    add_line(&mut table, "%PROGRAMFILES(x86)%", fixed("C:/Program Files (x86)"));
    add_line(&mut table, "%ProgramFiles%", fixed("C:/Program Files"));
    add_line(&mut table, "%ProgramFiles(x86)%", fixed("C:/Program Files (x86)"));
    add_line(&mut table, "%ProgramData%", fixed("C:/ProgramData"));
    add_line(&mut table, "%PROGRAMDATA%", fixed("C:/ProgramData"));
    add_line(&mut table, "%Public%", fixed("C:/Users/Public"));
    add_line(&mut table, "%PUBLIC%", fixed("C:/Users/Public"));
    add_line(&mut table, "%HomeDrive%", fixed("C:"));
    add_line(&mut table, "%HOMEDRIVE%", fixed("C:"));
    add_line(&mut table, "%SystemDrive%", fixed("C:"));
    add_line(&mut table, "%SYSTEMDRIVE%", fixed("C:"));
    add_line(&mut table, "%SystemRoot%", fixed("C:/Windows"));
    add_line(&mut table, "%SYSTEMROOT%", fixed("C:/Windows"));
    add_line(&mut table, "%UserProfile%", copy_dir(&folders.home_dir));
    add_line(&mut table, "%USERPROFILE%", copy_dir(&folders.home_dir));
    add_line(&mut table, "%Temp%", copy_dir(&folders.temp_dir));
    add_line(&mut table, "%TEMP%", copy_dir(&folders.temp_dir));
    table
}

/// Replaces the directory tokens at the start of a path: each line of the
/// table is tried in turn on what the lines before it left.
pub fn resolve(path: String, folders: &KnownFolders) -> (resolved_path: String)
    ensures
        resolved_path@ == resolved(path@, *folders),
{
    let table = build_token_table(folders);
    let ghost lines = token_table(*folders);
    let ghost start = path@;
    let mut current = path;
    let mut at: usize = 0;
    while at < table.len()
        invariant
            at <= table.len(),
            table.deep_view() == lines,
            current@ == resolved_by(start, lines, at as nat),
        decreases table.len() - at,
    {
        assert(table.deep_view()[at as int] == table@[at as int].deep_view());
        current = resolve_one(current, table[at].0.as_str(), &table[at].1);
        at += 1;
    }
    current
}

} // verus!
