use vstd::prelude::*;

use crate::error::{AppError, AppResult, is_message};
use crate::instance::{ModLoader, loader_name};
use crate::paths::{AppPaths, join_path, path_join};
use crate::digest::hex_digit;
use crate::text::{
    concat2, concat3, copy_opt, copy_str, decimal, join_spec, trim, trim_spec, u32_to_string, views,
};

verus! {

/// A project found by a mod search.
#[derive(Debug, Clone)]
pub struct ModHit {
    pub project_id: String,
    pub slug: String,
    pub title: String,
    pub description: String,
    pub icon_url: Option<String>,
    pub downloads: u64,
    pub categories: Vec<String>,
}

/// The file of a mod version that gets installed.
#[derive(Debug, Clone)]
pub struct ModVersionFile {
    pub version_id: String,
    pub name: String,
    pub version_number: String,
    pub filename: String,
    pub url: String,
    pub sha1: Option<String>,
    pub size: u64,
}

/// The hashes the mod index lists for a file.
#[derive(Debug, Clone)]
pub struct MrHashes {
    pub sha1: Option<String>,
}

/// A file of a version in the mod index.
#[derive(Debug, Clone)]
pub struct MrFile {
    pub url: String,
    pub filename: String,
    pub size: u64,
    pub primary: bool,
    pub hashes: MrHashes,
}

/// A version of a project in the mod index.
#[derive(Debug, Clone)]
pub struct MrVersion {
    pub id: String,
    pub name: String,
    pub version_number: String,
    pub files: Vec<MrFile>,
}

/// A request to the mod index: where it goes and its query parameters.
#[derive(Debug, Clone)]
pub struct ApiRequest {
    pub url: String,
    pub query: Vec<(String, String)>,
}

/// The query parameters of a request, as text.
pub open spec fn query_views(q: Seq<(String, String)>) -> Seq<(Seq<char>, Seq<char>)> {
    q.map_values(|p: (String, String)| (p.0@, p.1@))
}

/// The base address of the mod index's API.
pub open spec fn modrinth_api() -> Seq<char> {
    "https://api.modrinth.com/v2"@
}

/// The user agent the launcher sends to remote services.
pub open spec fn user_agent_spec() -> Seq<char> {
    "Cubic/0.1 (github.com/twinsson/Cubic)"@
}

/// The user agent the launcher sends to remote services.
pub fn user_agent() -> (r: &'static str)
    ensures
        r@ == user_agent_spec(),
{
    "Cubic/0.1 (github.com/twinsson/Cubic)"
}

/// The name the mod index gives a loader's mods; vanilla has none.
pub open spec fn loader_facet_spec(l: ModLoader) -> Option<Seq<char>> {
    if l == ModLoader::Vanilla {
        None
    } else {
        Some(loader_name(l))
    }
}

fn loader_facet(loader: ModLoader, vanilla_error: &str) -> (r: AppResult<&'static str>)
    ensures
        match loader_facet_spec(loader) {
            Some(f) => r matches Ok(x) && x@ == f,
            None => r matches Err(e) && is_message(e, vanilla_error@),
        },
{
    match loader {
        ModLoader::Vanilla => Err(AppError::msg(vanilla_error)),
        _ => Ok(loader.as_str()),
    }
}

/// How serde_json writes one character inside a JSON string: a quote or a
/// backslash after a backslash; backspace, tab, line feed, form feed and
/// carriage return as a backslash and `b`, `t`, `n`, `f` or `r`; the other
/// characters below U+0020 as a backslash, `u00` and two lower-case
/// hexadecimal digits; any other character as itself.
pub open spec fn json_escape(c: char) -> Seq<char> {
    if c == '"' {
        seq!['\\', '"']
    } else if c == '\\' {
        seq!['\\', '\\']
    } else if c == '\x08' {
        seq!['\\', 'b']
    } else if c == '\t' {
        seq!['\\', 't']
    } else if c == '\n' {
        seq!['\\', 'n']
    } else if c == '\x0c' {
        seq!['\\', 'f']
    } else if c == '\r' {
        seq!['\\', 'r']
    } else if (c as u32) < 0x20 {
        seq!['\\', 'u', '0', '0', hex_digit(((c as u32) / 16) as u8), hex_digit(((c as u32) % 16) as u8)]
    } else {
        seq![c]
    }
}

/// The characters of `s`, each as `json_escape` writes it.
pub open spec fn json_escaped(s: Seq<char>) -> Seq<char>
    decreases s.len(),
{
    if s.len() == 0 {
        s
    } else {
        json_escaped(s.drop_last()) + json_escape(s.last())
    }
}

/// A JSON string: `s` escaped, between double quotes.
pub open spec fn json_string(s: Seq<char>) -> Seq<char> {
    seq!['"'] + json_escaped(s) + seq!['"']
}

/// A compact JSON array of the given element texts: in brackets, separated
/// by commas, with no spaces.
pub open spec fn json_array(elements: Seq<Seq<char>>) -> Seq<char> {
    seq!['['] + join_spec(elements, seq![',']) + seq![']']
}

/// The compact JSON text of an array of strings.
pub open spec fn json_string_list(items: Seq<Seq<char>>) -> Seq<char> {
    json_array(items.map_values(|s: Seq<char>| json_string(s)))
}

/// The compact JSON text of an array of arrays of strings.
pub open spec fn json_string_lists(lists: Seq<Seq<Seq<char>>>) -> Seq<char> {
    json_array(lists.map_values(|l: Seq<Seq<char>>| json_string_list(l)))
}

/// The lists of strings, as text.
pub open spec fn nested_views(lists: Seq<Vec<String>>) -> Seq<Seq<Seq<char>>> {
    lists.map_values(|l: Vec<String>| views(l@))
}

/// `serde_json::Value::to_string` on an array of arrays of strings. Claims
/// what serde_json's compact writer does (`Display` for `Value`,
/// `format_escaped_str_contents` and its escape table): the text is
/// `json_string_lists` of the strings.
#[verifier::external_body]
fn json_lists_text(lists: &Vec<Vec<String>>) -> (r: String)
    ensures
        r@ == json_string_lists(nested_views(lists@)),
{
    let value = serde_json::Value::Array(
        lists.iter().map(
            |l| serde_json::Value::Array(
                l.iter().map(|s| serde_json::Value::String(s.clone())).collect(),
            ),
        ).collect(),
    );
    value.to_string()
}

/// `serde_json::Value::to_string` on an array of strings. Claims what
/// serde_json's compact writer does: the text is `json_string_list` of the
/// strings.
#[verifier::external_body]
fn json_list_text(items: &Vec<String>) -> (r: String)
    ensures
        r@ == json_string_list(views(items@)),
{
    let value = serde_json::Value::Array(
        items.iter().map(|s| serde_json::Value::String(s.clone())).collect(),
    );
    value.to_string()
}

/// The search order: by downloads for a blank query, else by relevance.
pub open spec fn search_index_spec(query: Seq<char>) -> Seq<char> {
    if trim_spec(query).len() == 0 {
        "downloads"@
    } else {
        "relevance"@
    }
}

/// The number of hits asked for: `limit` brought into `1..=40`.
pub open spec fn search_limit_spec(limit: u32) -> u32 {
    if limit > 40 {
        40
    } else if limit < 1 {
        1
    } else {
        limit
    }
}

/// The number of hits asked for: `limit.min(40).max(1)`.
pub fn search_limit(limit: u32) -> (r: u32)
    ensures
        r == search_limit_spec(limit),
{
    let capped = if limit < 40 {
        limit
    } else {
        40
    };
    if capped > 1 {
        capped
    } else {
        1
    }
}

/// The facets of a search: mods, for the game version, for the loader.
pub open spec fn search_facets_spec(game_version: Seq<char>, facet: Seq<char>) -> Seq<
    Seq<Seq<char>>,
> {
    seq![seq!["project_type:mod"@], seq!["versions:"@ + game_version], seq!["categories:"@ + facet]]
}

/// The message of a search for vanilla.
pub open spec fn search_vanilla_error() -> Seq<char> {
    "Pick Fabric or Quilt on the instance before installing mods"@
}

/// The request of a mod search for `loader` on `game_version`, or the
/// error that vanilla gets.
pub fn search_request(query: &str, game_version: &str, loader: ModLoader, limit: u32) -> (r:
    AppResult<ApiRequest>)
    ensures
        match loader_facet_spec(loader) {
            None => r matches Err(e) && is_message(e, search_vanilla_error()),
            Some(facet) => r matches Ok(req) && req.url@ == modrinth_api() + "/search"@
                && query_views(req.query@) == seq![
                ("query"@, trim_spec(query@)),
                ("limit"@, decimal(search_limit_spec(limit) as nat)),
                ("index"@, search_index_spec(query@)),
                ("facets"@, json_string_lists(search_facets_spec(game_version@, facet))),
            ],
        },
{
    let facet = loader_facet(
        loader,
        "Pick Fabric or Quilt on the instance before installing mods",
    )?;
    let q = trim(query);
    let index = if q.as_str().is_empty() {
        "downloads"
    } else {
        "relevance"
    };
    let mut lists: Vec<Vec<String>> = Vec::new();
    let mut l1: Vec<String> = Vec::new();
    l1.push(copy_str("project_type:mod"));
    let mut l2: Vec<String> = Vec::new();
    l2.push(concat2("versions:", game_version));
    let mut l3: Vec<String> = Vec::new();
    l3.push(concat2("categories:", facet));
    lists.push(l1);
    lists.push(l2);
    lists.push(l3);
    assert(nested_views(lists@) =~= search_facets_spec(game_version@, facet@)) by {
        assert(views(lists@[0]@) =~= seq!["project_type:mod"@]);
        assert(views(lists@[1]@) =~= seq!["versions:"@ + game_version@]);
        assert(views(lists@[2]@) =~= seq!["categories:"@ + facet@]);
    }
    let facets = json_lists_text(&lists);
    let n = u32_to_string(search_limit(limit));
    let mut params: Vec<(String, String)> = Vec::new();
    params.push((copy_str("query"), q));
    params.push((copy_str("limit"), n));
    params.push((copy_str("index"), copy_str(index)));
    params.push((copy_str("facets"), facets));
    let req = ApiRequest { url: concat2("https://api.modrinth.com/v2", "/search"), query: params };
    assert(query_views(req.query@) =~= seq![
        ("query"@, trim_spec(query@)),
        ("limit"@, decimal(search_limit_spec(limit) as nat)),
        ("index"@, search_index_spec(query@)),
        ("facets"@, json_string_lists(search_facets_spec(game_version@, facet@))),
    ]);
    Ok(req)
}

/// The message of a version lookup for vanilla.
pub open spec fn versions_vanilla_error() -> Seq<char> {
    "Vanilla instances cannot install mods"@
}

/// The request for the versions of `project_id` that fit `game_version`
/// and `loader`, or the error that vanilla gets.
pub fn versions_request(project_id: &str, game_version: &str, loader: ModLoader) -> (r: AppResult<
    ApiRequest,
>)
    ensures
        match loader_facet_spec(loader) {
            None => r matches Err(e) && is_message(e, versions_vanilla_error()),
            Some(facet) => r matches Ok(req) && req.url@ == modrinth_api() + "/project/"@
                + project_id@ + "/version"@ && query_views(req.query@) == seq![
                ("game_versions"@, json_string_list(seq![game_version@])),
                ("loaders"@, json_string_list(seq![facet])),
            ],
        },
{
    let facet = loader_facet(loader, "Vanilla instances cannot install mods")?;
    let mut gv: Vec<String> = Vec::new();
    gv.push(copy_str(game_version));
    let mut lv: Vec<String> = Vec::new();
    lv.push(copy_str(facet));
    assert(views(gv@) =~= seq![game_version@]);
    assert(views(lv@) =~= seq![facet@]);
    let mut params: Vec<(String, String)> = Vec::new();
    params.push((copy_str("game_versions"), json_list_text(&gv)));
    params.push((copy_str("loaders"), json_list_text(&lv)));
    let mut url = concat3("https://api.modrinth.com/v2", "/project/", project_id);
    url.append("/version");
    let req = ApiRequest { url, query: params };
    assert(query_views(req.query@) =~= seq![
        ("game_versions"@, json_string_list(seq![game_version@])),
        ("loaders"@, json_string_list(seq![facet@])),
    ]);
    Ok(req)
}

/// The index of the first primary file at or after `i`.
pub open spec fn first_primary_from(files: Seq<MrFile>, i: int) -> Option<int>
    decreases files.len() - i,
{
    if i < 0 || i >= files.len() {
        None
    } else if files[i].primary {
        Some(i)
    } else {
        first_primary_from(files, i + 1)
    }
}

/// The index of the file to install among a version's files: the first
/// primary one, else the first one.
pub open spec fn chosen_file(files: Seq<MrFile>) -> Option<int> {
    match first_primary_from(files, 0) {
        Some(i) => Some(i),
        None => if files.len() > 0 {
            Some(0)
        } else {
            None
        },
    }
}

/// Whether `f` is the install file of version `v` taken from `file`.
pub open spec fn describes(f: ModVersionFile, v: MrVersion, file: MrFile) -> bool {
    &&& f.version_id@ == v.id@
    &&& f.name@ == v.name@
    &&& f.version_number@ == v.version_number@
    &&& f.filename@ == file.filename@
    &&& f.url@ == file.url@
    &&& f.sha1 == file.hashes.sha1
    &&& f.size == file.size
}

/// The file to install from the versions the index lists, newest first:
/// the first version's first primary file, else its first file.
pub fn latest_mod_file(versions: &Vec<MrVersion>) -> (r: AppResult<ModVersionFile>)
    ensures
        versions@.len() == 0 ==> (r matches Err(e) && is_message(
            e,
            "No compatible Modrinth version found"@,
        )),
        versions@.len() > 0 && versions@[0].files@.len() == 0 ==> (r matches Err(e) && is_message(
            e,
            "Modrinth version has no files"@,
        )),
        versions@.len() > 0 && versions@[0].files@.len() > 0 ==> (r matches Ok(f)
            && chosen_file(versions@[0].files@) matches Some(i) && describes(
            f,
            versions@[0],
            versions@[0].files@[i],
        )),
{
    if versions.len() == 0 {
        return Err(AppError::msg("No compatible Modrinth version found"));
    }
    let version = &versions[0];
    let files = &version.files;
    if files.len() == 0 {
        return Err(AppError::msg("Modrinth version has no files"));
    }
    let mut pick: usize = 0;
    let mut i: usize = 0;
    while i < files.len()
        invariant_except_break
            pick == 0,
            first_primary_from(files@, 0) == first_primary_from(files@, i as int),
        invariant
            i <= files@.len(),
            files@.len() > 0,
        ensures
            pick < files@.len(),
            chosen_file(files@) == Some(pick as int),
        decreases files.len() - i,
    {
        if files[i].primary {
            pick = i;
            break;
        }
        i += 1;
    }
    let file = &files[pick];
    Ok(ModVersionFile {
        version_id: version.id.clone(),
        name: version.name.clone(),
        version_number: version.version_number.clone(),
        filename: file.filename.clone(),
        url: file.url.clone(),
        sha1: copy_opt(&file.hashes.sha1),
        size: file.size,
    })
}

/// Where a mod file goes in an instance.
pub fn mod_destination(paths: &AppPaths, instance_id: &str, filename: &str) -> (r: String)
    ensures
        r@ == path_join(paths.instance_mods_dir_spec(instance_id@), filename@),
{
    let dir = paths.instance_mods_dir(instance_id);
    join_path(dir.as_str(), filename)
}


proof fn lemma_first_primary_from(files: Seq<MrFile>, i: int, w: int)
    requires
        0 <= i <= w < files.len(),
        files[w].primary,
    ensures
        first_primary_from(files, i) matches Some(k) && i <= k <= w && files[k].primary
            && forall|j: int| i <= j < k ==> !(#[trigger] files[j]).primary,
    decreases w - i,
{
    if !files[i].primary {
        lemma_first_primary_from(files, i + 1, w);
    }
}

/// Law: when a version lists a primary file, the file installed is the
/// first primary one.
pub proof fn lemma_chosen_file_primary(files: Seq<MrFile>, w: int)
    requires
        0 <= w < files.len(),
        files[w].primary,
    ensures
        chosen_file(files) matches Some(k) && files[k].primary && forall|j: int|
            0 <= j < k ==> !(#[trigger] files[j]).primary,
{
    lemma_first_primary_from(files, 0, w);
}

} // verus!
