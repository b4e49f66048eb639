//! Rules on the text of paths: file extensions, parent directories and the
//! place of the entry point inside the directory of the external tool.
//!
//! A path is read as the file system hands it back once it was resolved:
//! components separated by `/`, none of them `.` or `..`, and no separator at
//! the end.

use vstd::prelude::*;
use vstd::string::{StrSliceExecFns, StringExecFns};
use crate::error::Error;
use crate::settings::ConfigFormat;
use crate::text::{chars_of, join3};

verus! {

/// The index of the last `c` in `s`, or -1 where `s` holds none.
pub open spec fn last_index_of(s: Seq<char>, c: char) -> int
    decreases s.len(),
{
    if s.len() == 0 {
        -1
    } else if s.last() == c {
        s.len() - 1
    } else {
        last_index_of(s.drop_last(), c)
    }
}

/// The last component of a path: what follows its last separator.
pub open spec fn file_name(path: Seq<char>) -> Seq<char> {
    path.skip(last_index_of(path, '/') + 1)
}

/// The extension of a path: what follows the last dot of its file name.
///
/// There is none where the file name is empty or `..`, holds no dot, or
/// holds a single dot at its very start.
pub open spec fn extension(path: Seq<char>) -> Option<Seq<char>> {
    let name = file_name(path);
    let dot = last_index_of(name, '.');
    if dot <= 0 || name == seq!['.', '.'] {
        None
    } else {
        Some(name.skip(dot + 1))
    }
}

/// The directory that holds the last component of a path: the root for a
/// file directly below it, the empty path for a bare file name.
pub open spec fn parent(path: Seq<char>) -> Seq<char> {
    let slash = last_index_of(path, '/');
    if slash == 0 {
        path.take(1)
    } else if slash < 0 {
        Seq::empty()
    } else {
        path.take(slash)
    }
}

/// The extension that a configuration file of the given format must have.
pub open spec fn required_extension(format: ConfigFormat) -> Seq<char> {
    match format {
        ConfigFormat::Ron => "ron"@,
        ConfigFormat::Json => "json"@,
        ConfigFormat::Toml => "toml"@,
        ConfigFormat::Yaml => "yaml"@,
    }
}

/// The explanation of a configuration file with the wrong extension.
pub open spec fn wrong_extension_text(format: ConfigFormat) -> Seq<char> {
    match format {
        ConfigFormat::Ron => "Config file must be a ron file."@,
        ConfigFormat::Json => "Config file must be a json file."@,
        ConfigFormat::Toml => "Config file must be a toml file."@,
        ConfigFormat::Yaml => "Config file must be a yaml file."@,
    }
}

/// The path of the entry point `waf` inside the directory `dir`.
pub open spec fn waf_in(dir: Seq<char>) -> Seq<char> {
    if dir.len() == 0 || dir.last() == '/' {
        dir + "waf"@
    } else {
        dir + "/waf"@
    }
}

/// Finds the last `c` at or after position `from`.
fn find_last(chars: &Vec<char>, from: usize, c: char) -> (found: Option<usize>)
    requires
        from <= chars.len(),
    ensures
        match found {
            Some(i) => {
                &&& from <= i < chars.len()
                &&& chars[i as int] == c
                &&& last_index_of(chars@.skip(from as int), c) == i - from
            },
            None => last_index_of(chars@.skip(from as int), c) == -1,
        },
{
    let ghost tail = chars@.skip(from as int);
    let mut i: usize = chars.len();
    assert(tail.take(chars.len() - from) == tail);
    while i > from
        invariant
            from <= i <= chars.len(),
            tail == chars@.skip(from as int),
            last_index_of(tail, c) == last_index_of(tail.take(i - from), c),
        decreases i,
    {
        let ghost head = tail.take(i - from);
        assert(head.drop_last() == tail.take(i - 1 - from));
        if chars[i - 1] == c {
            return Some(i - 1);
        }
        i = i - 1;
    }
    None
}

/// The extension of a path, where it has one.
pub fn extension_of(path: &str) -> (ext: Option<String>)
    ensures
        match extension(path@) {
            Some(e) => ext matches Some(found) && found@ == e,
            None => ext is None,
        },
{
    let chars = chars_of(path);
    let start: usize = match find_last(&chars, 0, '/') {
        Some(slash) => slash + 1,
        None => 0,
    };
    assert(chars@.skip(0) == chars@);
    let ghost name = chars@.skip(start as int);
    match find_last(&chars, start, '.') {
        None => None,
        Some(dot) => {
            if dot == start {
                None
            } else if chars.len() - start == 2 && chars[start] == '.' {
                assert(name =~= seq!['.', '.']);
                None
            } else {
                assert(name != seq!['.', '.']);
                let ext = path.substring_char(dot + 1, chars.len());
                Some(String::from_str(ext))
            }
        },
    }
}

/// The directory that holds the last component of a path.
pub fn parent_of(path: &str) -> (dir: String)
    ensures
        dir@ == parent(path@),
{
    let chars = chars_of(path);
    assert(chars@.skip(0) == chars@);
    match find_last(&chars, 0, '/') {
        None => String::new(),
        Some(slash) => {
            if slash == 0 {
                String::from_str(path.substring_char(0, 1))
            } else {
                String::from_str(path.substring_char(0, slash))
            }
        },
    }
}

/// The path of the entry point `waf` inside the directory `dir`.
pub fn waf_path(dir: &str) -> (path: String)
    ensures
        path@ == waf_in(dir@),
{
    let chars = chars_of(dir);
    let mut path = String::from_str(dir);
    if chars.len() == 0 || chars[chars.len() - 1] == '/' {
        path.append("waf");
    } else {
        path.append("/waf");
    }
    path
}

/// Whether the configuration file was found and has the extension that
/// the format requires.
pub open spec fn config_file_ok(located: Result<String, String>, format: ConfigFormat) -> bool {
    located matches Ok(path) && extension(path@) == Some(required_extension(format))
}

/// Whether `error` is the error owed for a configuration file that was not
/// found, has no extension, or has the wrong one.
pub open spec fn config_file_rejection(
    located: Result<String, String>,
    format: ConfigFormat,
    error: Error,
) -> bool {
    match located {
        Err(why) => {
            &&& error matches Error::FileNotFound(msg)
            &&& msg@ == "Can not locate config file: "@ + why@ + "."@
        },
        Ok(path) => match extension(path@) {
            None => {
                &&& error matches Error::InvalidConfig(msg)
                &&& msg@ == "Config file must have a valid file extension."@
            },
            Some(found) => {
                &&& found != required_extension(format)
                &&& error matches Error::InvalidConfig(msg)
                &&& msg@ == wrong_extension_text(format)
            },
        },
    }
}

/// Whether `error` is the error owed for an entry point that was not found.
pub open spec fn ns3_dir_rejection(located: Result<String, String>, error: Error) -> bool {
    &&& located matches Err(why)
    &&& error matches Error::FileNotFound(msg)
    &&& msg@ == "Can not locate ns3 dir: "@ + why@ + "."@
}

/// Checks the configuration file that was looked up on disk.
///
/// `located` is what resolving the configured path gave: the resolved path,
/// or the reason why there is no such file. The file is accepted, and its
/// resolved path handed back, exactly when it was found and its extension is
/// the one that the format requires.
pub fn check_config_file(located: Result<String, String>, ext: &ConfigFormat) -> (checked: Result<
    String,
    Error,
>)
    ensures
        match checked {
            Ok(path) => config_file_ok(located, *ext) && located == Ok::<String, String>(path),
            Err(error) => !config_file_ok(located, *ext) && config_file_rejection(
                located,
                *ext,
                error,
            ),
        },
{
    match located {
        Err(why) => Err(
            Error::FileNotFound(join3("Can not locate config file: ", why.as_str(), ".")),
        ),
        Ok(path) => match extension_of(path.as_str()) {
            None => Err(
                Error::InvalidConfig("Config file must have a valid file extension.".to_string()),
            ),
            Some(found) => {
                let (wanted, complaint) = match ext {
                    ConfigFormat::Ron => ("ron", "Config file must be a ron file."),
                    ConfigFormat::Json => ("json", "Config file must be a json file."),
                    ConfigFormat::Toml => ("toml", "Config file must be a toml file."),
                    ConfigFormat::Yaml => ("yaml", "Config file must be a yaml file."),
                };
                if found == String::from_str(wanted) {
                    Ok(path)
                } else {
                    Err(Error::InvalidConfig(complaint.to_string()))
                }
            },
        },
    }
}

/// Checks the entry point of the external tool that was looked up on disk.
///
/// `located` is what resolving the path of the entry point gave: the
/// resolved path, or the reason why there is no such file. Where it was
/// found, the directory that holds it is the directory of the tool.
pub fn check_ns3_dir(located: Result<String, String>) -> (checked: Result<String, Error>)
    ensures
        match checked {
            Ok(dir) => located matches Ok(entry) && dir@ == parent(entry@),
            Err(error) => ns3_dir_rejection(located, error),
        },
{
    match located {
        Err(why) => Err(Error::FileNotFound(join3("Can not locate ns3 dir: ", why.as_str(), "."))),
        Ok(entry) => Ok(parent_of(entry.as_str())),
    }
}

} // verus!
