use vstd::prelude::*;

use crate::text::{concat2, push_char, copy_str};

verus! {

/// `PathBuf::join` on a Unix path: an absolute component replaces the base;
/// otherwise the component is appended, with a `/` between the two unless
/// the base is empty or already ends in `/`.
pub open spec fn path_join(base: Seq<char>, comp: Seq<char>) -> Seq<char> {
    if comp.len() > 0 && comp[0] == '/' {
        comp
    } else if base.len() > 0 && base.last() != '/' {
        base + seq!['/'] + comp
    } else {
        base + comp
    }
}

/// `base` joined with `comp`.
pub fn join_path(base: &str, comp: &str) -> (r: String)
    ensures
        r@ == path_join(base@, comp@),
{
    let b = crate::text::chars_of(base);
    let c = crate::text::chars_of(comp);
    if c.len() > 0 && c[0] == '/' {
        copy_str(comp)
    } else if b.len() > 0 && b[b.len() - 1] != '/' {
        let mut r = copy_str(base);
        push_char(&mut r, '/');
        r.append(comp);
        r
    } else {
        concat2(base, comp)
    }
}

/// The launcher's configuration, data and cache directories.
#[derive(Debug, Clone)]
pub struct AppPaths {
    pub config_dir: String,
    pub data_dir: String,
    pub cache_dir: String,
}

/// The file name of the Java launcher binary inside a runtime's `bin`.
pub open spec fn java_bin_name_spec() -> Seq<char> {
    "java"@
}

impl AppPaths {
    pub open spec fn instances_dir_spec(&self) -> Seq<char> {
        path_join(self.data_dir@, "instances"@)
    }

    pub open spec fn instance_dir_spec(&self, id: Seq<char>) -> Seq<char> {
        path_join(self.instances_dir_spec(), id)
    }

    pub open spec fn instance_game_dir_spec(&self, id: Seq<char>) -> Seq<char> {
        path_join(self.instance_dir_spec(id), "minecraft"@)
    }

    pub open spec fn instance_mods_dir_spec(&self, id: Seq<char>) -> Seq<char> {
        path_join(self.instance_game_dir_spec(id), "mods"@)
    }

    pub open spec fn libraries_dir_spec(&self) -> Seq<char> {
        path_join(self.data_dir@, "libraries"@)
    }

    pub open spec fn assets_dir_spec(&self) -> Seq<char> {
        path_join(self.data_dir@, "assets"@)
    }

    pub open spec fn versions_dir_spec(&self) -> Seq<char> {
        path_join(self.data_dir@, "versions"@)
    }

    pub open spec fn runtime_dir_spec(&self) -> Seq<char> {
        path_join(self.data_dir@, "runtime"@)
    }

    pub open spec fn version_dir_spec(&self, version_id: Seq<char>) -> Seq<char> {
        path_join(self.versions_dir_spec(), version_id)
    }

    pub open spec fn version_json_path_spec(&self, version_id: Seq<char>) -> Seq<char> {
        path_join(self.version_dir_spec(version_id), version_id + ".json"@)
    }

    pub open spec fn version_jar_path_spec(&self, version_id: Seq<char>) -> Seq<char> {
        path_join(self.version_dir_spec(version_id), version_id + ".jar"@)
    }

    pub open spec fn download_tmp_dir_spec(&self) -> Seq<char> {
        path_join(self.cache_dir@, "downloads"@)
    }

    /// The name of the Java launcher binary inside a runtime's `bin`.
    pub fn java_bin_name() -> (r: &'static str)
        ensures
            r@ == java_bin_name_spec(),
    {
        "java"
    }

    pub fn settings_file(&self) -> (r: String)
        ensures
            r@ == path_join(self.config_dir@, "settings.json"@),
    {
        join_path(self.config_dir.as_str(), "settings.json")
    }

    pub fn offline_session_file(&self) -> (r: String)
        ensures
            r@ == path_join(self.config_dir@, "offline-session.json"@),
    {
        join_path(self.config_dir.as_str(), "offline-session.json")
    }

    pub fn instances_dir(&self) -> (r: String)
        ensures
            r@ == self.instances_dir_spec(),
    {
        join_path(self.data_dir.as_str(), "instances")
    }

    pub fn libraries_dir(&self) -> (r: String)
        ensures
            r@ == self.libraries_dir_spec(),
    {
        join_path(self.data_dir.as_str(), "libraries")
    }

    pub fn assets_dir(&self) -> (r: String)
        ensures
            r@ == self.assets_dir_spec(),
    {
        join_path(self.data_dir.as_str(), "assets")
    }

    pub fn versions_dir(&self) -> (r: String)
        ensures
            r@ == self.versions_dir_spec(),
    {
        join_path(self.data_dir.as_str(), "versions")
    }

    pub fn runtime_dir(&self) -> (r: String)
        ensures
            r@ == self.runtime_dir_spec(),
    {
        join_path(self.data_dir.as_str(), "runtime")
    }

    pub fn instance_dir(&self, id: &str) -> (r: String)
        ensures
            r@ == self.instance_dir_spec(id@),
    {
        let d = self.instances_dir();
        join_path(d.as_str(), id)
    }

    pub fn instance_game_dir(&self, id: &str) -> (r: String)
        ensures
            r@ == self.instance_game_dir_spec(id@),
    {
        let d = self.instance_dir(id);
        join_path(d.as_str(), "minecraft")
    }

    pub fn instance_mods_dir(&self, id: &str) -> (r: String)
        ensures
            r@ == self.instance_mods_dir_spec(id@),
    {
        let d = self.instance_game_dir(id);
        join_path(d.as_str(), "mods")
    }

    pub fn version_dir(&self, version_id: &str) -> (r: String)
        ensures
            r@ == self.version_dir_spec(version_id@),
    {
        let d = self.versions_dir();
        join_path(d.as_str(), version_id)
    }

    pub fn version_json_path(&self, version_id: &str) -> (r: String)
        ensures
            r@ == self.version_json_path_spec(version_id@),
    {
        let d = self.version_dir(version_id);
        let f = concat2(version_id, ".json");
        join_path(d.as_str(), f.as_str())
    }

    pub fn version_jar_path(&self, version_id: &str) -> (r: String)
        ensures
            r@ == self.version_jar_path_spec(version_id@),
    {
        let d = self.version_dir(version_id);
        let f = concat2(version_id, ".jar");
        join_path(d.as_str(), f.as_str())
    }

    pub fn download_tmp_dir(&self) -> (r: String)
        ensures
            r@ == self.download_tmp_dir_spec(),
    {
        join_path(self.cache_dir.as_str(), "downloads")
    }

    /// The directories that must exist for the launcher to work, in the
    /// order in which they are created.
    pub fn required_dirs(&self) -> (r: Vec<String>)
        ensures
            crate::text::views(r@) == seq![
                self.config_dir@,
                self.data_dir@,
                self.cache_dir@,
                self.instances_dir_spec(),
                self.libraries_dir_spec(),
                self.assets_dir_spec(),
                self.versions_dir_spec(),
                self.runtime_dir_spec(),
            ],
    {
        let mut r: Vec<String> = Vec::new();
        r.push(self.config_dir.clone());
        r.push(self.data_dir.clone());
        r.push(self.cache_dir.clone());
        r.push(self.instances_dir());
        r.push(self.libraries_dir());
        r.push(self.assets_dir());
        r.push(self.versions_dir());
        r.push(self.runtime_dir());
        assert(crate::text::views(r@) =~= seq![
            self.config_dir@,
            self.data_dir@,
            self.cache_dir@,
            self.instances_dir_spec(),
            self.libraries_dir_spec(),
            self.assets_dir_spec(),
            self.versions_dir_spec(),
            self.runtime_dir_spec(),
        ]);
        r
    }
}


/// Whether a path is relative: it does not start with `/`.
pub open spec fn is_relative(p: Seq<char>) -> bool {
    p.len() == 0 || p[0] != '/'
}

/// A relative component joined to a base extends the base.
pub proof fn lemma_join_extends(base: Seq<char>, comp: Seq<char>)
    requires
        is_relative(comp),
    ensures
        base.is_prefix_of(path_join(base, comp)),
{
    let j = path_join(base, comp);
    assert(j.subrange(0, base.len() as int) =~= base);
}

/// Law: the directories of an instance nest as the layout describes: the
/// instances directory lies in the data directory, the instance's
/// directory in it, the game directory in that, and the mods directory in
/// the game directory (for an id that is a relative path).
pub proof fn lemma_instance_layout(paths: AppPaths, id: Seq<char>)
    requires
        is_relative(id),
    ensures
        paths.data_dir@.is_prefix_of(paths.instances_dir_spec()),
        paths.instances_dir_spec().is_prefix_of(paths.instance_dir_spec(id)),
        paths.instance_dir_spec(id).is_prefix_of(paths.instance_game_dir_spec(id)),
        paths.instance_game_dir_spec(id).is_prefix_of(paths.instance_mods_dir_spec(id)),
{
    reveal_strlit("instances");
    reveal_strlit("minecraft");
    reveal_strlit("mods");
    lemma_join_extends(paths.data_dir@, "instances"@);
    lemma_join_extends(paths.instances_dir_spec(), id);
    lemma_join_extends(paths.instance_dir_spec(id), "minecraft"@);
    lemma_join_extends(paths.instance_game_dir_spec(id), "mods"@);
}

/// Law: a version's profile and client jar lie in that version's
/// directory, which lies in the versions directory of the data directory
/// (for a version id that is a relative path).
pub proof fn lemma_version_layout(paths: AppPaths, version_id: Seq<char>)
    requires
        is_relative(version_id),
    ensures
        paths.data_dir@.is_prefix_of(paths.versions_dir_spec()),
        paths.versions_dir_spec().is_prefix_of(paths.version_dir_spec(version_id)),
        paths.version_dir_spec(version_id).is_prefix_of(paths.version_json_path_spec(version_id)),
        paths.version_dir_spec(version_id).is_prefix_of(paths.version_jar_path_spec(version_id)),
{
    reveal_strlit(".json");
    reveal_strlit(".jar");
    reveal_strlit("versions");
    lemma_join_extends(paths.data_dir@, "versions"@);
    lemma_join_extends(paths.versions_dir_spec(), version_id);
    if version_id.len() > 0 {
        assert((version_id + ".json"@)[0] == version_id[0]);
        assert((version_id + ".jar"@)[0] == version_id[0]);
    } else {
        assert((version_id + ".json"@)[0] == '.');
        assert((version_id + ".jar"@)[0] == '.');
    }
    lemma_join_extends(paths.version_dir_spec(version_id), version_id + ".json"@);
    lemma_join_extends(paths.version_dir_spec(version_id), version_id + ".jar"@);
}

} // verus!
