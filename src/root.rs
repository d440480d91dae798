//! The root directory of each plugin, and the file that holds its stored
//! configuration.
use vstd::prelude::*;

use crate::error::IpcError;
use crate::path::{check_name, is_name, AbsPath};
use crate::plugin::{plugin_type_of, PluginType};

verus! {

/// The directory, below the data directory, that holds the roots of a category.
///
/// One mapping, chosen once and shared by the file operations and by the
/// stored configuration: official plugins live under `config`, custom ones
/// under `plugins`. The stored configuration of a plugin is thus always in
/// the same root as the files it reaches through the file operations.
pub open spec fn category_dir(t: PluginType) -> Seq<char> {
    match t {
        PluginType::Official => "config"@,
        PluginType::Custom => "plugins"@,
    }
}

/// An id stands for one directory name: it is a name (see `is_name`) and
/// holds no `\` either.
pub open spec fn valid_id(id: Seq<char>) -> bool {
    is_name(id) && !id.contains('\\')
}

/// The root directory of plugin `id` of category `t`.
pub open spec fn plugin_root(data: Seq<Seq<char>>, id: Seq<char>, t: PluginType) -> Seq<
    Seq<char>,
> {
    data.push(category_dir(t)).push(id)
}

/// The name of the file that holds the stored configuration of plugin `id`.
pub open spec fn config_file_name(id: Seq<char>) -> Seq<char> {
    id + ".config.json"@
}

/// Whether `id` can stand for one directory name.
pub fn check_id(id: &str) -> (r: bool)
    ensures
        r == valid_id(id@),
{
    if !check_name(id) {
        return false;
    }
    let n = id.unicode_len();
    let mut i: usize = 0;
    while i < n
        invariant
            n == id@.len(),
            i <= n,
            forall|j: int| 0 <= j < i ==> id@[j] != '\\',
        decreases n - i,
    {
        if id.get_char(i) == '\\' {
            return false;
        }
        i = i + 1;
    }
    true
}

fn category_dir_name(t: PluginType) -> (r: &'static str)
    ensures
        r@ == category_dir(t),
        is_name(r@),
{
    proof {
        reveal_strlit("config");
        reveal_strlit("plugins");
    }
    match t {
        PluginType::Official => {
            assert(!"config"@.contains('/'));
            "config"
        },
        PluginType::Custom => {
            assert(!"plugins"@.contains('/'));
            "plugins"
        },
    }
}

/// The root directory of plugin `id` of category `plugin_type`, below the
/// data directory `data_dir`. An id that is not one directory name (see
/// `valid_id`) is refused, since it could leave the category's directory.
pub fn get_path(data_dir: &AbsPath, id: &str, plugin_type: PluginType) -> (r: Result<
    AbsPath,
    IpcError,
>)
    ensures
        valid_id(id@) ==> (r matches Ok(p) && p@ == plugin_root(data_dir@, id@, plugin_type)),
        !valid_id(id@) ==> (r matches Err(IpcError::PathPermissionDenied(m)) && m@ == id@),
{
    if !check_id(id) {
        return Err(IpcError::PathPermissionDenied(String::from_str(id)));
    }
    let dir = category_path(data_dir, plugin_type);
    Ok(dir.child(id))
}

/// The directory, below the data directory `data_dir`, that holds the roots
/// of the plugins of category `plugin_type`.
pub fn category_path(data_dir: &AbsPath, plugin_type: PluginType) -> (r: AbsPath)
    ensures
        r@ == data_dir@.push(category_dir(plugin_type)),
{
    data_dir.child(category_dir_name(plugin_type))
}

/// The root directory for a request that names its category by a string.
/// The category is read first: a request with an unknown category fails
/// before its id is looked at, and before anything on disk is touched.
pub fn request_root(data_dir: &AbsPath, id: &str, plugin_type: &str) -> (r: Result<
    AbsPath,
    IpcError,
>)
    ensures
        plugin_type_of(plugin_type@) is None ==> (r matches Err(IpcError::InvalidPluginType(m))
            && m@ == plugin_type@),
        plugin_type_of(plugin_type@) matches Some(t) ==> {
            &&& valid_id(id@) ==> (r matches Ok(p) && p@ == plugin_root(data_dir@, id@, t))
            &&& !valid_id(id@) ==> (r matches Err(IpcError::PathPermissionDenied(m)) && m@ == id@)
        },
{
    let t = PluginType::from_str(plugin_type)?;
    get_path(data_dir, id, t)
}

/// The file that holds the stored configuration of plugin `id`: inside its
/// root, named after the id.
pub fn get_config_path(data_dir: &AbsPath, id: &str, plugin_type: PluginType) -> (r: Result<
    AbsPath,
    IpcError,
>)
    ensures
        valid_id(id@) ==> (r matches Ok(p) && p@ == plugin_root(data_dir@, id@, plugin_type).push(
            config_file_name(id@),
        )),
        !valid_id(id@) ==> (r matches Err(IpcError::PathPermissionDenied(m)) && m@ == id@),
{
    let root = get_path(data_dir, id, plugin_type)?;
    let mut file_name = String::from_str(id);
    file_name.append(".config.json");
    proof {
        reveal_strlit(".config.json");
        assert(file_name@.len() > 2);
        assert(!file_name@.contains('/')) by {
            assert forall|j: int| 0 <= j < file_name@.len() implies file_name@[j] != '/' by {
                if j >= id@.len() {
                    assert(file_name@[j] == ".config.json"@[j - id@.len()]);
                }
            }
        }
        assert(file_name@ != seq!['.']);
        assert(file_name@ != seq!['.', '.']);
    }
    Ok(root.child(file_name.as_str()))
}

} // verus!
