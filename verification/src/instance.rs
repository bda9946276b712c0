use vstd::prelude::*;

use crate::digest::{is_rfc3339_utc, is_v4_uuid_text, new_uuid_v4, now_rfc3339};
use crate::error::{AppError, AppResult, is_message};
use crate::sort::{firsts, keys_of, seconds, sort_by_text_key, sort_by_text_spec};
use crate::text::{concat2, contains_char, contains_str, contains_seq, ends_with, trim, trim_spec};

verus! {

/// The mod loader of an instance.
#[derive(Debug, Clone, Copy, PartialEq, Eq, Structural)]
pub enum ModLoader {
    Vanilla,
    Fabric,
    Quilt,
    Forge,
    NeoForge,
}

impl Default for ModLoader {
    fn default() -> (l: ModLoader)
        ensures
            l == ModLoader::Vanilla,
    {
        ModLoader::Vanilla
    }
}

/// The lower-case name of a loader.
pub open spec fn loader_name(l: ModLoader) -> Seq<char> {
    match l {
        ModLoader::Vanilla => "vanilla"@,
        ModLoader::Fabric => "fabric"@,
        ModLoader::Quilt => "quilt"@,
        ModLoader::Forge => "forge"@,
        ModLoader::NeoForge => "neoforge"@,
    }
}

/// The loaders that the launcher can install.
pub open spec fn loader_implemented(l: ModLoader) -> bool {
    l == ModLoader::Vanilla || l == ModLoader::Fabric || l == ModLoader::Quilt
}

impl ModLoader {
    pub fn as_str(self) -> (r: &'static str)
        ensures
            r@ == loader_name(self),
    {
        match self {
            ModLoader::Vanilla => "vanilla",
            ModLoader::Fabric => "fabric",
            ModLoader::Quilt => "quilt",
            ModLoader::Forge => "forge",
            ModLoader::NeoForge => "neoforge",
        }
    }

    /// Every loader but vanilla loads mods.
    pub fn supports_mods(self) -> (r: bool)
        ensures
            r == (self != ModLoader::Vanilla),
    {
        !matches!(self, ModLoader::Vanilla)
    }

    pub fn is_implemented(self) -> (r: bool)
        ensures
            r == loader_implemented(self),
    {
        matches!(self, ModLoader::Vanilla | ModLoader::Fabric | ModLoader::Quilt)
    }
}

/// A game installation with its own directory.
#[derive(Debug, Clone)]
pub struct Instance {
    pub id: String,
    pub name: String,
    pub version_id: String,
    pub loader: ModLoader,
    pub loader_version: Option<String>,
    /// Resolved profile id used to launch (e.g. fabric-loader-…-1.21.1).
    pub launch_version_id: Option<String>,
    pub created_at: String,
}

/// The profile an instance launches: its resolved profile when it has a
/// non-empty one, else its game version.
pub open spec fn effective_launch_id_spec(i: Instance) -> Seq<char> {
    match i.launch_version_id {
        Some(l) => if l@.len() > 0 {
            l@
        } else {
            i.version_id@
        },
        None => i.version_id@,
    }
}

impl Instance {
    pub fn effective_launch_id(&self) -> (r: &str)
        ensures
            r@ == effective_launch_id_spec(*self),
    {
        match &self.launch_version_id {
            Some(l) => if !l.as_str().is_empty() {
                l.as_str()
            } else {
                self.version_id.as_str()
            },
            None => self.version_id.as_str(),
        }
    }

    /// Records a finished install: the loader version used, if any, and the
    /// profile to launch.
    pub fn record_install(&mut self, loader_version: Option<String>, launch_version_id: String)
        ensures
            final(self).launch_version_id == Some(launch_version_id),
            loader_version is Some ==> final(self).loader_version == loader_version,
            loader_version is None ==> final(self).loader_version == old(self).loader_version,
            final(self).id == old(self).id,
            final(self).name == old(self).name,
            final(self).version_id == old(self).version_id,
            final(self).loader == old(self).loader,
            final(self).created_at == old(self).created_at,
    {
        if loader_version.is_some() {
            self.loader_version = loader_version;
        }
        self.launch_version_id = Some(launch_version_id);
    }
}

/// What the interface sends to create an instance.
#[derive(Debug, Clone)]
pub struct CreateInstanceRequest {
    pub name: String,
    pub version_id: String,
    pub loader: ModLoader,
    pub loader_version: Option<String>,
}

/// Why a request is refused, if it is: a blank name, a blank version, or a
/// loader the launcher cannot install.
pub open spec fn request_problem(req: CreateInstanceRequest) -> Option<Seq<char>> {
    if trim_spec(req.name@).len() == 0 {
        Some("Instance name cannot be empty"@)
    } else if trim_spec(req.version_id@).len() == 0 {
        Some("Version is required"@)
    } else if !loader_implemented(req.loader) {
        Some(
            loader_name(req.loader)
                + " loader support is not ready yet — pick Vanilla, Fabric, or Quilt"@,
        )
    } else {
        None
    }
}

/// A new instance record for `req`, with a fresh random id and the current
/// time.
pub fn new_instance(req: CreateInstanceRequest) -> (r: AppResult<Instance>)
    ensures
        match request_problem(req) {
            Some(m) => r matches Err(e) && is_message(e, m),
            None => r matches Ok(i) && i.name@ == trim_spec(req.name@) && i.version_id
                == req.version_id && i.loader == req.loader && i.loader_version
                == req.loader_version && i.launch_version_id is None && is_v4_uuid_text(i.id@)
                && is_rfc3339_utc(i.created_at@),
        },
{
    let name = trim(req.name.as_str());
    if name.as_str().is_empty() {
        return Err(AppError::msg("Instance name cannot be empty"));
    }
    let v = trim(req.version_id.as_str());
    if v.as_str().is_empty() {
        return Err(AppError::msg("Version is required"));
    }
    if !req.loader.is_implemented() {
        let m = concat2(
            req.loader.as_str(),
            " loader support is not ready yet — pick Vanilla, Fabric, or Quilt",
        );
        return Err(AppError::Message(m));
    }
    let id = new_uuid_v4();
    Ok(
        Instance {
            id,
            name,
            version_id: req.version_id,
            loader: req.loader,
            loader_version: req.loader_version,
            launch_version_id: None,
            created_at: now_rfc3339(),
        },
    )
}

/// `str::to_lowercase` on `s`, Unicode's full lower-case mapping.
pub uninterp spec fn unicode_lowercase(s: Seq<char>) -> Seq<char>;

/// `str::to_lowercase`. Claims only that the result is the lower-case
/// mapping of exactly this text.
#[verifier::external_body]
fn to_lowercase(s: &str) -> (r: String)
    ensures
        r@ == unicode_lowercase(s@),
{
    s.to_lowercase()
}

/// The instances sorted by name, ignoring case; instances whose names
/// compare equal keep their order.
pub fn sort_instances(list: Vec<Instance>) -> (r: Vec<Instance>)
    ensures
        exists|keyed: Seq<(String, Instance)>|
            keyed.len() == list@.len() && (forall|k: int|
                0 <= k < keyed.len() ==> (#[trigger] keyed[k]).1 == list@[k] && keyed[k].0@
                    == unicode_lowercase(list@[k].name@)) && r@ == sort_by_text_spec(
                keyed,
            ).map_values(|p: (String, Instance)| p.1),
{
    let ghost orig = list@;
    let mut keyed: Vec<(String, Instance)> = Vec::new();
    let mut list = list;
    let mut rev: Vec<Instance> = Vec::new();
    while list.len() > 0
        invariant
            list@.len() + rev@.len() == orig.len(),
            list@ == orig.take(list@.len() as int),
            forall|k: int| 0 <= k < rev@.len() ==> #[trigger] rev@[k] == orig[orig.len() - 1 - k],
        decreases list@.len(),
    {
        let ghost n = list@.len();
        assert(list@[n - 1] == orig[n - 1]);
        let x = list.pop().unwrap();
        rev.push(x);
        assert(list@ =~= orig.take(n - 1));
    }
    while rev.len() > 0
        invariant
            rev@.len() + keyed@.len() == orig.len(),
            forall|k: int| 0 <= k < rev@.len() ==> #[trigger] rev@[k] == orig[orig.len() - 1 - k],
            forall|k: int|
                0 <= k < keyed@.len() ==> (#[trigger] keyed@[k]).1 == orig[k] && keyed@[k].0@
                    == unicode_lowercase(orig[k].name@),
        decreases rev@.len(),
    {
        let ghost n = rev@.len();
        assert(rev@[n - 1] == orig[orig.len() - n]);
        let x = rev.pop().unwrap();
        let key = to_lowercase(x.name.as_str());
        keyed.push((key, x));
    }
    let ghost kv = keyed@;
    let sorted = sort_by_text_key(keyed);
    let mut out: Vec<Instance> = Vec::new();
    let mut sorted = sorted;
    let ghost sv = sorted@;
    let mut tmp: Vec<Instance> = Vec::new();
    while sorted.len() > 0
        invariant
            sorted@.len() <= sv.len(),
            sorted@ == sv.take(sorted@.len() as int),
            tmp@.len() + sorted@.len() == sv.len(),
            forall|k: int| 0 <= k < tmp@.len() ==> #[trigger] tmp@[k] == sv[sv.len() - 1 - k].1,
        decreases sorted@.len(),
    {
        let ghost n = sorted@.len();
        assert(sorted@[n - 1] == sv[n - 1]);
        let (_, x) = sorted.pop().unwrap();
        tmp.push(x);
        assert(sorted@ =~= sv.take(n - 1));
    }
    while tmp.len() > 0
        invariant
            tmp@.len() + out@.len() == sv.len(),
            forall|k: int| 0 <= k < tmp@.len() ==> #[trigger] tmp@[k] == sv[sv.len() - 1 - k].1,
            forall|k: int| 0 <= k < out@.len() ==> #[trigger] out@[k] == sv[k].1,
        decreases tmp@.len(),
    {
        let ghost n = tmp@.len();
        assert(tmp@[n - 1] == sv[sv.len() - n].1);
        let x = tmp.pop().unwrap();
        out.push(x);
    }
    assert(out@ =~= seconds(sv));
    out
}

/// Whether a file name is a mod jar, enabled or disabled.
pub open spec fn is_mod_file(name: Seq<char>) -> bool {
    ".jar"@.is_suffix_of(name) || ".jar.disabled"@.is_suffix_of(name)
}

/// The mod jars among the file names of a mods directory, sorted.
pub fn select_mod_files(names: Vec<String>) -> (r: Vec<String>)
    ensures
        exists|kept: Seq<(String, ())>|
            #[trigger] keys_of(kept) == crate::text::views(names@).filter(
                |n: Seq<char>| is_mod_file(n),
            ) && r@ == firsts(sort_by_text_spec(kept)),
{
    let ghost orig = names@;
    let mut kept: Vec<(String, ())> = Vec::new();
    let mut i: usize = 0;
    let ghost pred = |n: Seq<char>| is_mod_file(n);
    assert(crate::text::views(orig).take(0).filter(pred) =~= Seq::<Seq<char>>::empty());
    assert(keys_of(kept@) =~= Seq::<Seq<char>>::empty());
    while i < names.len()
        invariant
            i <= names@.len(),
            names@ == orig,
            pred == (|n: Seq<char>| is_mod_file(n)),
            keys_of(kept@) == crate::text::views(
                orig,
            ).take(i as int).filter(pred),
        decreases names.len() - i,
    {
        let ghost vs = crate::text::views(orig);
        assert(vs.take(i + 1) =~= vs.take(i as int) + seq![vs[i as int]]);
        proof {
            Seq::filter_distributes_over_add(vs.take(i as int), seq![vs[i as int]], pred);
            reveal_with_fuel(Seq::<Seq<char>>::filter, 2);
            assert(seq![vs[i as int]].drop_last() =~= Seq::<Seq<char>>::empty());
        }
        let n = names[i].as_str();
        let ghost before = kept@;
        if ends_with(n, ".jar") || ends_with(n, ".jar.disabled") {
            kept.push((names[i].clone(), ()));
            assert(keys_of(kept@) =~= keys_of(before).push(n@));
        }
        i += 1;
    }
    assert(crate::text::views(orig).take(names@.len() as int) =~= crate::text::views(orig));
    let ghost kv = kept@;
    let sorted = sort_by_text_key(kept);
    let ghost sv = sorted@;
    let mut sorted = sorted;
    let mut tmp: Vec<String> = Vec::new();
    while sorted.len() > 0
        invariant
            sorted@.len() <= sv.len(),
            sorted@ == sv.take(sorted@.len() as int),
            tmp@.len() + sorted@.len() == sv.len(),
            forall|k: int| 0 <= k < tmp@.len() ==> #[trigger] tmp@[k] == sv[sv.len() - 1 - k].0,
        decreases sorted@.len(),
    {
        let ghost n = sorted@.len();
        assert(sorted@[n - 1] == sv[n - 1]);
        let (x, _) = sorted.pop().unwrap();
        tmp.push(x);
        assert(sorted@ =~= sv.take(n - 1));
    }
    let mut out: Vec<String> = Vec::new();
    while tmp.len() > 0
        invariant
            tmp@.len() + out@.len() == sv.len(),
            forall|k: int| 0 <= k < tmp@.len() ==> #[trigger] tmp@[k] == sv[sv.len() - 1 - k].0,
            forall|k: int| 0 <= k < out@.len() ==> #[trigger] out@[k] == sv[k].0,
        decreases tmp@.len(),
    {
        let ghost n = tmp@.len();
        assert(tmp@[n - 1] == sv[sv.len() - n].0);
        let x = tmp.pop().unwrap();
        out.push(x);
    }
    assert(out@ =~= firsts(sv));
    out
}

/// A file name that stays inside its directory: not empty, no `/`, no
/// `\`, no `..`.
pub open spec fn is_safe_file_name(name: Seq<char>) -> bool {
    name.len() > 0 && !name.contains('/') && !name.contains('\\') && !contains_seq(name, ".."@)
}

/// A file name to be checked before it is joined to a directory.
pub struct PathSanitize<'a>(pub &'a str);

impl PathSanitize<'_> {
    pub fn is_ok(&self) -> (r: bool)
        ensures
            r == is_safe_file_name(self.0@),
    {
        !self.0.is_empty() && !contains_char(self.0, '/') && !contains_char(self.0, '\\')
            && !contains_str(self.0, "..")
    }
}

/// The refusal of `remove_mod` for a file name that is not safe.
pub fn check_mod_file_name(file_name: &str) -> (r: AppResult<()>)
    ensures
        is_safe_file_name(file_name@) ==> r is Ok,
        !is_safe_file_name(file_name@) ==> (r matches Err(e) && is_message(
            e,
            "Invalid mod file name"@,
        )),
{
    let safe = PathSanitize(file_name);
    if !safe.is_ok() {
        return Err(AppError::msg("Invalid mod file name"));
    }
    Ok(())
}

} // verus!
