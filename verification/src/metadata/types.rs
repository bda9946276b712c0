use vstd::prelude::*;

use crate::text::str_eq;

verus! {

/// Mojang's list of game versions.
#[derive(Debug, Clone)]
pub struct VersionManifest {
    pub latest: LatestVersions,
    pub versions: Vec<VersionInfo>,
}

#[derive(Debug, Clone)]
pub struct LatestVersions {
    pub release: String,
    pub snapshot: String,
}

/// One entry of the version manifest.
#[derive(Debug, Clone)]
pub struct VersionInfo {
    pub id: String,
    pub version_type: String,
    pub url: String,
    pub time: String,
    pub release_time: String,
    pub sha1: Option<String>,
}

/// A version profile: what a game version, or a loader profile that
/// inherits from one, needs in order to run.
#[derive(Debug, Clone)]
pub struct VersionJson {
    pub id: String,
    pub version_type: Option<String>,
    pub inherits_from: Option<String>,
    pub main_class: String,
    pub minecraft_arguments: Option<String>,
    pub arguments: Option<VersionArguments>,
    pub libraries: Vec<Library>,
    pub asset_index: Option<AssetIndexRef>,
    pub assets: Option<String>,
    pub downloads: Option<VersionDownloads>,
    pub java_version: Option<JavaVersionReq>,
}

#[derive(Debug, Clone)]
pub struct JavaVersionReq {
    pub component: Option<String>,
    pub major_version: u32,
}

#[derive(Debug, Clone)]
pub struct VersionArguments {
    pub game: Vec<ArgumentValue>,
    pub jvm: Option<Vec<ArgumentValue>>,
}

/// A command-line argument, or a group of them that rules guard.
#[derive(Debug, Clone)]
pub enum ArgumentValue {
    String(String),
    Object { rules: Option<Vec<Rule>>, value: StringOrVec },
}

#[derive(Debug, Clone)]
pub enum StringOrVec {
    String(String),
    Vec(Vec<String>),
}

/// A library; `natives` maps an OS name to the classifier of its natives.
///
/// The maps of these types are lists of entries in which no key occurs
/// twice (see `keys_unique`); lookups take the entry with the key.
#[derive(Debug, Clone)]
pub struct Library {
    pub name: String,
    pub downloads: Option<LibraryDownloads>,
    pub url: Option<String>,
    pub rules: Option<Vec<Rule>>,
    pub natives: Option<Vec<(String, String)>>,
}

/// A library's downloads; `classifiers` maps a classifier to its artifact.
#[derive(Debug, Clone)]
pub struct LibraryDownloads {
    pub artifact: Option<Artifact>,
    pub classifiers: Option<Vec<(String, Artifact)>>,
}

#[derive(Debug, Clone)]
pub struct Artifact {
    pub path: Option<String>,
    pub sha1: String,
    pub size: u64,
    pub url: String,
}

/// An allow/disallow rule; `features` maps a feature name to the value it
/// requires.
#[derive(Debug, Clone)]
pub struct Rule {
    pub action: String,
    pub os: Option<OsRule>,
    pub features: Option<Vec<(String, bool)>>,
}

#[derive(Debug, Clone)]
pub struct OsRule {
    pub name: Option<String>,
    pub arch: Option<String>,
    pub version: Option<String>,
}

#[derive(Debug, Clone)]
pub struct AssetIndexRef {
    pub id: String,
    pub sha1: String,
    pub size: u64,
    pub total_size: Option<u64>,
    pub url: String,
}

#[derive(Debug, Clone)]
pub struct VersionDownloads {
    pub client: Artifact,
    pub server: Option<Artifact>,
}

/// An asset index; `objects` maps an asset name to its object.
#[derive(Debug, Clone)]
pub struct AssetIndex {
    pub objects: Vec<(String, AssetObject)>,
}

#[derive(Debug, Clone)]
pub struct AssetObject {
    pub hash: String,
    pub size: u64,
}

/// The operating system the launcher runs on, as rules name it.
#[derive(Debug, Clone, Copy, PartialEq, Eq, Structural)]
pub enum HostOs {
    Windows,
    Osx,
    Linux,
}

/// The name that rules use for `h`.
pub open spec fn host_name(h: HostOs) -> Seq<char> {
    match h {
        HostOs::Windows => "windows"@,
        HostOs::Osx => "osx"@,
        HostOs::Linux => "linux"@,
    }
}

impl HostOs {
    /// The name that rules use for this operating system.
    pub fn rule_name(self) -> (r: &'static str)
        ensures
            r@ == host_name(self),
    {
        match self {
            HostOs::Windows => "windows",
            HostOs::Osx => "osx",
            HostOs::Linux => "linux",
        }
    }
}

/// The value of `key` in a feature list: that of its first entry, or
/// `false` when it has none.
pub open spec fn feature_value(features: Seq<(String, bool)>, key: Seq<char>) -> bool
    decreases features.len(),
{
    if features.len() == 0 {
        false
    } else if features[0].0@ == key {
        features[0].1
    } else {
        feature_value(features.drop_first(), key)
    }
}

/// Whether `rule` applies on `host` with the given features: its OS name,
/// if any, is the host's, and every feature it names has the value it
/// requires.
pub open spec fn rule_applies(rule: Rule, features: Seq<(String, bool)>, host: HostOs) -> bool {
    os_matches(rule, host) && features_match(rule, features)
}

/// The OS part of a rule: no OS name, or the host's.
pub open spec fn os_matches(rule: Rule, host: HostOs) -> bool {
    match rule.os {
        Some(os) => match os.name {
            Some(n) => n@ == host_name(host),
            None => true,
        },
        None => true,
    }
}

/// The feature part of a rule: every feature it names has the value it
/// requires.
pub open spec fn features_match(rule: Rule, features: Seq<(String, bool)>) -> bool {
    match rule.features {
        Some(req) => forall|i: int|
            0 <= i < req@.len() ==> feature_value(features, (#[trigger] req@[i]).0@) == req@[i].1,
        None => true,
    }
}

/// The verdict of the last rule that applies, or `false` when none does.
pub open spec fn last_verdict(rules: Seq<Rule>, features: Seq<(String, bool)>, host: HostOs) -> bool
    decreases rules.len(),
{
    if rules.len() == 0 {
        false
    } else if rule_applies(rules.last(), features, host) {
        rules.last().action@ == "allow"@
    } else {
        last_verdict(rules.drop_last(), features, host)
    }
}

/// Whether a rule list allows something: no list, or an empty one, allows
/// it; otherwise the last rule that applies decides.
pub open spec fn rules_allow_spec(
    rules: Option<Seq<Rule>>,
    features: Seq<(String, bool)>,
    host: HostOs,
) -> bool {
    match rules {
        None => true,
        Some(r) => r.len() == 0 || last_verdict(r, features, host),
    }
}

/// The value of `key` in `features`.
pub fn lookup_feature(features: &Vec<(String, bool)>, key: &str) -> (r: bool)
    ensures
        r == feature_value(features@, key@),
{
    let mut i: usize = 0;
    assert(features@.skip(0) =~= features@);
    while i < features.len()
        invariant
            i <= features@.len(),
            feature_value(features@, key@) == feature_value(features@.skip(i as int), key@),
        decreases features.len() - i,
    {
        assert(features@.skip(i as int)[0] == features@[i as int]);
        if str_eq(features[i].0.as_str(), key) {
            return features[i].1;
        }
        assert(features@.skip(i as int).drop_first() =~= features@.skip(i + 1));
        i += 1;
    }
    false
}

impl Rule {
    /// Whether this rule applies on `host` with the given features.
    pub fn applies(&self, features: &Vec<(String, bool)>, host: HostOs) -> (r: bool)
        ensures
            r == rule_applies(*self, features@, host),
    {
        if let Some(os) = &self.os {
            if let Some(name) = &os.name {
                if !str_eq(name.as_str(), host.rule_name()) {
                    return false;
                }
            }
        }
        if let Some(req) = &self.features {
            let mut i: usize = 0;
            while i < req.len()
                invariant
                    i <= req@.len(),
                    self.features matches Some(v) && v@ == req@,
                    os_matches(*self, host),
                    forall|k: int|
                        0 <= k < i ==> feature_value(features@, (#[trigger] req@[k]).0@)
                            == req@[k].1,
                decreases req.len() - i,
            {
                let present = lookup_feature(features, req[i].0.as_str());
                if present != req[i].1 {
                    assert(feature_value(features@, req@[i as int].0@) != req@[i as int].1);
                    return false;
                }
                i += 1;
            }
        }
        true
    }
}

/// Whether the rules allow something on `host` with the given features.
pub fn rules_allow(rules: Option<&[Rule]>, features: &Vec<(String, bool)>, host: HostOs) -> (r: bool)
    ensures
        r == rules_allow_spec(
            match rules {
                Some(x) => Some(x@),
                None => None,
            },
            features@,
            host,
        ),
{
    let rules = match rules {
        None => {
            return true;
        },
        Some(r) => r,
    };
    if rules.len() == 0 {
        return true;
    }
    let mut allowed = false;
    let mut i: usize = 0;
    assert(rules@.take(0) =~= Seq::<Rule>::empty());
    while i < rules.len()
        invariant
            i <= rules@.len(),
            allowed == last_verdict(rules@.take(i as int), features@, host),
        decreases rules.len() - i,
    {
        assert(rules@.take(i + 1).drop_last() =~= rules@.take(i as int));
        assert(rules@.take(i + 1).last() == rules@[i as int]);
        if rules[i].applies(features, host) {
            allowed = str_eq(rules[i].action.as_str(), "allow");
        }
        i += 1;
    }
    assert(rules@.take(rules@.len() as int) =~= rules@);
    allowed
}

/// The rules of an optional rule list, as `Option<&[Rule]>::as_deref` gives
/// them.
pub fn rules_slice(rules: &Option<Vec<Rule>>) -> (r: Option<&[Rule]>)
    ensures
        match rules {
            Some(v) => r matches Some(s) && s@ == v@,
            None => r is None,
        },
{
    match rules {
        Some(v) => Some(v.as_slice()),
        None => None,
    }
}

/// Law: when some rule applies, the last one that applies decides.
pub proof fn lemma_last_applying_rule_decides(
    rules: Seq<Rule>,
    features: Seq<(String, bool)>,
    host: HostOs,
    i: int,
)
    requires
        0 <= i < rules.len(),
        rule_applies(rules[i], features, host),
        forall|j: int| i < j < rules.len() ==> !rule_applies(#[trigger] rules[j], features, host),
    ensures
        rules_allow_spec(Some(rules), features, host) == (rules[i].action@ == "allow"@),
    decreases rules.len(),
{
    if i < rules.len() - 1 {
        assert(!rule_applies(rules[rules.len() - 1], features, host));
        let r2 = rules.drop_last();
        assert forall|j: int| i < j < r2.len() implies !rule_applies(#[trigger] r2[j], features, host) by {
            assert(r2[j] == rules[j]);
        }
        lemma_last_applying_rule_decides(r2, features, host, i);
    }
}

/// Law: a non-empty rule list none of whose rules applies allows nothing.
pub proof fn lemma_no_applying_rule_denies(
    rules: Seq<Rule>,
    features: Seq<(String, bool)>,
    host: HostOs,
)
    requires
        rules.len() > 0,
        forall|j: int| 0 <= j < rules.len() ==> !rule_applies(#[trigger] rules[j], features, host),
    ensures
        !rules_allow_spec(Some(rules), features, host),
    decreases rules.len(),
{
    lemma_no_rule_applies_verdict(rules, features, host);
}

proof fn lemma_no_rule_applies_verdict(
    rules: Seq<Rule>,
    features: Seq<(String, bool)>,
    host: HostOs,
)
    requires
        forall|j: int| 0 <= j < rules.len() ==> !rule_applies(#[trigger] rules[j], features, host),
    ensures
        !last_verdict(rules, features, host),
    decreases rules.len(),
{
    if rules.len() > 0 {
        let r2 = rules.drop_last();
        assert(!rule_applies(rules[rules.len() - 1], features, host));
        assert forall|j: int| 0 <= j < r2.len() implies !rule_applies(#[trigger] r2[j], features, host) by {
            assert(r2[j] == rules[j]);
        }
        lemma_no_rule_applies_verdict(r2, features, host);
    }
}

} // verus!
