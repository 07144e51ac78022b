//! Plugin uploads: a jar is accepted when it is small enough, is a ZIP
//! archive, holds a Paper plugin descriptor and has a safe name; an
//! existing file is only replaced when asked.
use crate::server::api::ApiError;
use crate::server::sandbox::{jar_filename_s, sandbox_message, validate_jar_filename, SandboxError};
use crate::text::{owned, str_eq};
use vstd::prelude::*;

verus! {

/// Largest plugin accepted: 64 MiB.
pub const PLUGIN_MAX_BYTES: u64 = 67108864;

/// The names of the entries of a ZIP archive that can be read, in order,
/// or `None` when the bytes are not a readable archive.
pub uninterp spec fn zip_entry_names(data: Seq<u8>) -> Option<Seq<Seq<char>>>;

/// Opens the bytes with `zip::ZipArchive::new` and lists `by_index(i).name()`
/// for every entry that opens.  Named by `zip_entry_names`.
#[verifier::external_body]
fn zip_names(data: &[u8]) -> (r: Option<Vec<String>>)
    ensures
        match zip_entry_names(data@) {
            None => r is None,
            Some(ns) => r matches Some(v) && v@.len() == ns.len() && forall|i: int|
                0 <= i < ns.len() ==> (#[trigger] v@[i])@ == ns[i],
        },
{
    let mut z = zip::ZipArchive::new(std::io::Cursor::new(data)).ok()?;
    let mut out = Vec::new();
    for i in 0..z.len() {
        if let Ok(f) = z.by_index(i) {
            out.push(f.name().to_string());
        }
    }
    Some(out)
}

pub open spec fn is_descriptor(n: Seq<char>) -> bool {
    n == "plugin.yml"@ || n == "paper-plugin.yml"@
}

pub open spec fn has_descriptor_s(data: Seq<u8>) -> bool {
    match zip_entry_names(data) {
        None => false,
        Some(ns) => exists|i: int| 0 <= i < ns.len() && is_descriptor(#[trigger] ns[i]),
    }
}

proof fn lemma_descriptor_found(data: Seq<u8>, ns: Seq<Seq<char>>, k: int)
    requires
        zip_entry_names(data) == Some(ns),
        0 <= k < ns.len(),
        is_descriptor(ns[k]),
    ensures
        has_descriptor_s(data),
{
    assert(zip_entry_names(data)->0 == ns);
}

/// Whether a jar holds `plugin.yml` or `paper-plugin.yml` at its root.
pub fn zip_contains_plugin_descriptor(data: &[u8]) -> (r: bool)
    ensures
        r == has_descriptor_s(data@),
{
    let names = match zip_names(data) {
        None => return false,
        Some(v) => v,
    };
    let ghost ns = zip_entry_names(data@)->0;
    let mut i: usize = 0;
    while i < names.len()
        invariant
            i <= names@.len(),
            zip_entry_names(data@) == Some(ns),
            names@.len() == ns.len(),
            forall|k: int| 0 <= k < ns.len() ==> (#[trigger] names@[k])@ == ns[k],
            forall|k: int| 0 <= k < i ==> !is_descriptor(#[trigger] ns[k]),
        decreases names@.len() - i,
    {
        if str_eq(names[i].as_str(), "plugin.yml") || str_eq(names[i].as_str(), "paper-plugin.yml") {
            proof {
                lemma_descriptor_found(data@, ns, i as int);
            }
            return true;
        }
        i += 1;
    }
    false
}

pub open spec fn zip_magic(data: Seq<u8>) -> bool {
    data.len() >= 4 && data[0] == 0x50 && data[1] == 0x4b && data[2] == 0x03 && data[3] == 0x04
}

pub open spec fn too_large_text() -> Seq<char> {
    "jar 大小超过 64 MiB 上限"@
}

/// The content checks of an upload, in order: size, ZIP header, plugin
/// descriptor.
pub fn check_plugin_bytes(data: &[u8]) -> (r: Result<(), ApiError>)
    ensures
        data@.len() > PLUGIN_MAX_BYTES ==> (r matches Err(e) && e.status == 400 && e.code@
            == "too_large"@ && e.message@ == too_large_text()),
        data@.len() <= PLUGIN_MAX_BYTES && !zip_magic(data@) ==> (r matches Err(e) && e.status == 400
            && e.code@ == "not_zip"@),
        data@.len() <= PLUGIN_MAX_BYTES && zip_magic(data@) && !has_descriptor_s(data@) ==> (
        r matches Err(e) && e.status == 400 && e.code@ == "not_paper_plugin"@),
        r is Ok <==> data@.len() <= PLUGIN_MAX_BYTES && zip_magic(data@) && has_descriptor_s(data@),
{
    if data.len() as u64 > PLUGIN_MAX_BYTES {
        return Err(ApiError::bad_request("too_large", owned("jar 大小超过 64 MiB 上限")));
    }
    if data.len() < 4 || !(data[0] == 0x50 && data[1] == 0x4b && data[2] == 0x03 && data[3] == 0x04) {
        return Err(ApiError::bad_request("not_zip", owned("文件不是有效的 ZIP/jar（缺 PK 头）")));
    }
    if !zip_contains_plugin_descriptor(data) {
        return Err(
            ApiError::bad_request(
                "not_paper_plugin",
                owned("jar 内未找到 plugin.yml / paper-plugin.yml，看起来不是 Paper 插件"),
            ),
        );
    }
    Ok(())
}

/// A path error, answered with 400 `invalid_path` and its message.
pub fn sandbox_api_error(e: SandboxError) -> (r: ApiError)
    ensures
        r.status == 400,
        r.code@ == "invalid_path"@,
        r.message@ == sandbox_message(e),
{
    ApiError::bad_request("invalid_path", owned(e.message()))
}

/// What an upload reports.
#[derive(Debug, Clone)]
pub struct UploadResp {
    pub filename: String,
    pub size: u64,
    pub replaced: bool,
}

/// The decision of an install once the bytes passed their checks: the
/// name must be a valid jar name, and an existing file is only replaced
/// when asked.  `present` says whether the target file is there.
pub fn plan_install(filename: &str, size: u64, present: bool, replace: bool) -> (r: Result<
    UploadResp,
    ApiError,
>)
    ensures
        jar_filename_s(filename@) matches Err(e) ==> (r matches Err(x) && x.status == 400
            && x.code@ == "invalid_path"@ && x.message@ == sandbox_message(e)),
        jar_filename_s(filename@) is Ok && present && !replace ==> (r matches Err(x) && x.status == 409
            && x.code@ == "already_exists"@),
        jar_filename_s(filename@) is Ok && (!present || replace) ==> (r matches Ok(u) && u.filename@
            == jar_filename_s(filename@)->Ok_0 && u.size == size && u.replaced == present),
{
    let clean = match validate_jar_filename(filename) {
        Ok(n) => n,
        Err(e) => return Err(sandbox_api_error(e)),
    };
    if present && !replace {
        return Err(
            ApiError::new(409, "already_exists", owned("目标文件已存在；如需覆盖请设 replace=true")),
        );
    }
    Ok(UploadResp { filename: clean, size, replaced: present })
}

/// The multipart `replace` field: `true`, `1` or `yes` mean replace.
pub fn parse_replace(v: &str) -> (r: bool)
    ensures
        r == (v@ == "true"@ || v@ == "1"@ || v@ == "yes"@),
{
    str_eq(v, "true") || str_eq(v, "1") || str_eq(v, "yes")
}

/// An uploaded file without a name is refused.
pub fn upload_name(raw: Option<&str>) -> (r: Result<String, ApiError>)
    ensures
        match raw {
            None => r matches Err(e) && e.status == 400 && e.code@ == "missing_filename"@,
            Some(n) => match jar_filename_s(n@) {
                Ok(t) => r matches Ok(x) && x@ == t,
                Err(e) => r matches Err(x) && x.status == 400 && x.code@ == "invalid_path"@
                    && x.message@ == sandbox_message(e),
            },
        },
{
    match raw {
        None => Err(ApiError::bad_request("missing_filename", owned("缺少 filename"))),
        Some(n) => match validate_jar_filename(n) {
            Ok(t) => Ok(t),
            Err(e) => Err(sandbox_api_error(e)),
        },
    }
}

/// A jar in the plugins directory.
#[derive(Debug, Clone)]
pub struct PluginEntry {
    pub filename: String,
    pub size: u64,
    pub modified_ts: i64,
}

/// Plugins are listed by lower-cased file name.
pub open spec fn plugin_key(e: PluginEntry) -> (u64, Seq<char>, u64) {
    (0, crate::sorting::unicode_lowercase(e.filename@), 0)
}

pub open spec fn plugin_key_fn() -> spec_fn(PluginEntry) -> (u64, Seq<char>, u64) {
    |e: PluginEntry| plugin_key(e)
}

pub fn sort_plugin_entries(v: Vec<PluginEntry>) -> (r: Vec<PluginEntry>)
    ensures
        exists|p: Seq<int>| #[trigger] crate::sorting::sorted_by(v@, plugin_key_fn(), r@, p),
{
    let mut keys: Vec<crate::sorting::SortKey> = Vec::new();
    let mut i: usize = 0;
    while i < v.len()
        invariant
            i <= v@.len(),
            keys@.len() == i,
            forall|j: int| 0 <= j < i ==> crate::sorting::kv(#[trigger] keys@[j]) == plugin_key_fn()(v@[j]),
        decreases v@.len() - i,
    {
        let low = crate::sorting::to_lowercase(v[i].filename.as_str());
        keys.push(crate::sorting::text_key(0, low.as_str(), 0));
        i += 1;
    }
    crate::sorting::sort_by_keys(v, keys, Ghost(plugin_key_fn()))
}

} // verus!
