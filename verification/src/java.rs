use vstd::prelude::*;

use crate::error::{AppError, AppResult, is_message};
use crate::paths::{AppPaths, join_path, path_join, java_bin_name_spec};
use crate::assoc::{lookup, lookup_ref};
use crate::sort::{sort_by_text_key, sort_by_text_spec, num_sorted_desc, sort_by_num_desc, sort_by_num_desc_spec, lemma_sort_by_num_desc};
use crate::text::{
    CharClass, char_in, chars_of, class_pred, concat2, copy_str, find_char, find_char_in,
    lines, lines_spec, parse_u32, parse_u32_spec, split_by, split_class, str_eq, string_of,
    string_of_range, strip_prefix, strip_prefix_spec, trim, trim_bounds, trim_by, trim_spec,
    u32_to_string, decimal, views,
};

verus! {

/// A Java installation and the major version it reports.
#[derive(Debug, Clone)]
pub struct JavaRuntime {
    pub path: String,
    pub major_version: u32,
    pub vendor_hint: Option<String>,
}

// ---------------------------------------------------------------------------
// Version strings
// ---------------------------------------------------------------------------

/// The separators of a Java version string.
pub open spec fn version_seps() -> spec_fn(char) -> bool {
    char_in(seq!['.', '-', '+', '_'])
}

/// The major version of a Java version string: its first field, or its
/// second when the first is `1` (`1.8.0_372` is Java 8).
pub open spec fn parse_major_version_spec(ver: Seq<char>) -> Option<u32> {
    let parts = split_by(ver, version_seps());
    if parts[0] == "1"@ {
        if parts.len() >= 2 {
            parse_u32_spec(parts[1])
        } else {
            None
        }
    } else {
        parse_u32_spec(parts[0])
    }
}

/// The major version of a Java version string.
pub fn parse_major_version_string(ver: &str) -> (r: Option<u32>)
    ensures
        r == parse_major_version_spec(ver@),
{
    let mut seps: Vec<char> = Vec::new();
    seps.push('.');
    seps.push('-');
    seps.push('+');
    seps.push('_');
    assert(seps@ =~= seq!['.', '-', '+', '_']);
    let cls = CharClass::OneOf(seps);
    let parts = split_class(ver, &cls);
    assert(class_pred(cls) =~= version_seps());
    proof {
        crate::text::lemma_split_by_len(ver@, version_seps());
        assert(views(parts@)[0] == parts@[0]@);
    }
    if str_eq(parts[0].as_str(), "1") {
        if parts.len() >= 2 {
            assert(views(parts@)[1] == parts@[1]@);
            parse_u32(parts[1].as_str())
        } else {
            None
        }
    } else {
        parse_u32(parts[0].as_str())
    }
}

/// The version in the first quoted text of a line, if the line has one.
pub open spec fn quoted_major(line: Seq<char>) -> Option<Option<u32>> {
    match find_char(line, '"') {
        None => None,
        Some(i) => {
            let rest = line.skip(i + 1);
            match find_char(rest, '"') {
                None => None,
                Some(e) => Some(parse_major_version_spec(rest.take(e))),
            }
        },
    }
}

/// The major version of the first line that quotes a version.
pub open spec fn major_from_lines(ls: Seq<Seq<char>>) -> Option<u32>
    decreases ls.len(),
{
    if ls.len() == 0 {
        None
    } else {
        match quoted_major(ls[0]) {
            Some(r) => r,
            None => major_from_lines(ls.drop_first()),
        }
    }
}

/// The major version that `java -version` prints, e.g. in
/// `openjdk version "21.0.2" 2024-01-16`.
pub open spec fn major_from_version_output_spec(text: Seq<char>) -> Option<u32> {
    major_from_lines(lines_spec(text))
}

fn quoted_major_exec(line: &str) -> (r: Option<Option<u32>>)
    ensures
        r == quoted_major(line@),
{
    let v = chars_of(line);
    let n = v.len();
    match find_char_in(&v, '"') {
        None => None,
        Some(i) => {
            let rest = string_of_range(v.as_slice(), i + 1, n);
            assert(rest@ =~= line@.skip(i + 1));
            let rv = chars_of(rest.as_str());
            match find_char_in(&rv, '"') {
                None => None,
                Some(e) => {
                    let ver = string_of_range(rv.as_slice(), 0, e);
                    assert(ver@ =~= rest@.take(e as int));
                    Some(parse_major_version_string(ver.as_str()))
                },
            }
        },
    }
}

/// The major version that `java -version` prints.
pub fn parse_major_from_version_output(text: &str) -> (r: Option<u32>)
    ensures
        r == major_from_version_output_spec(text@),
{
    let ls = lines(text);
    let ghost lv = views(ls@);
    let mut i: usize = 0;
    assert(lv.skip(0) =~= lv);
    while i < ls.len()
        invariant
            i <= ls@.len(),
            lv == views(ls@),
            lv == lines_spec(text@),
            major_from_lines(lv) == major_from_lines(lv.skip(i as int)),
        decreases ls.len() - i,
    {
        assert(lv.skip(i as int)[0] == ls@[i as int]@);
        assert(lv.skip(i as int).drop_first() =~= lv.skip(i + 1));
        if let Some(r) = quoted_major_exec(ls[i].as_str()) {
            return r;
        }
        i += 1;
    }
    None
}

/// The major version that a runtime's `release` file declares: the first
/// `JAVA_VERSION=` line, its value trimmed of whitespace and then of
/// quotes.
pub open spec fn release_major_lines(ls: Seq<Seq<char>>) -> Option<u32>
    decreases ls.len(),
{
    if ls.len() == 0 {
        None
    } else {
        match strip_prefix_spec(ls[0], "JAVA_VERSION="@) {
            Some(rest) => parse_major_version_spec(
                trim_by(trim_spec(rest), class_pred(CharClass::Quote)),
            ),
            None => release_major_lines(ls.drop_first()),
        }
    }
}

/// The major version that the text of a `release` file declares.
pub fn release_major(text: &str) -> (r: Option<u32>)
    ensures
        r == release_major_lines(lines_spec(text@)),
{
    let ls = lines(text);
    let ghost lv = views(ls@);
    let mut i: usize = 0;
    assert(lv.skip(0) =~= lv);
    while i < ls.len()
        invariant
            i <= ls@.len(),
            lv == views(ls@),
            lv == lines_spec(text@),
            release_major_lines(lv) == release_major_lines(lv.skip(i as int)),
        decreases ls.len() - i,
    {
        assert(lv.skip(i as int)[0] == ls@[i as int]@);
        assert(lv.skip(i as int).drop_first() =~= lv.skip(i + 1));
        if let Some(rest) = strip_prefix(ls[i].as_str(), "JAVA_VERSION=") {
            let t = trim(rest.as_str());
            let tv = chars_of(t.as_str());
            let (lo, hi) = trim_bounds(&tv, &CharClass::Quote);
            let ver = string_of_range(tv.as_slice(), lo, hi);
            return parse_major_version_string(ver.as_str());
        }
        i += 1;
    }
    None
}

/// The text to read a version from: standard error, unless it is blank.
pub fn version_output_text(stderr: &str, stdout: &str) -> (r: String)
    ensures
        r@ == (if trim_spec(stderr@).len() == 0 {
            stdout@
        } else {
            stderr@
        }),
{
    let t = trim(stderr);
    if t.as_str().is_empty() {
        copy_str(stdout)
    } else {
        copy_str(stderr)
    }
}

/// The runtime at `path`, from the output of its `-version`.
pub fn runtime_from_version_output(path: &str, stderr: &str, stdout: &str) -> (r: AppResult<
    JavaRuntime,
>)
    ensures
        ({
            let text = if trim_spec(stderr@).len() == 0 {
                stdout@
            } else {
                stderr@
            };
            match major_from_version_output_spec(text) {
                Some(m) => r matches Ok(rt) && rt.path@ == path@ && rt.major_version == m
                    && rt.vendor_hint is None,
                None => r matches Err(e) && is_message(
                    e,
                    "Could not parse Java version from "@ + path@,
                ),
            }
        }),
{
    let text = version_output_text(stderr, stdout);
    match parse_major_from_version_output(text.as_str()) {
        Some(m) => Ok(JavaRuntime { path: copy_str(path), major_version: m, vendor_hint: None }),
        None => Err(AppError::Message(concat2("Could not parse Java version from ", path))),
    }
}

/// The runtime at `path` with a known major version.
pub fn runtime_with_major(path: &str, major: u32) -> (rt: JavaRuntime)
    ensures
        rt.path@ == path@,
        rt.major_version == major,
        rt.vendor_hint is None,
{
    JavaRuntime { path: copy_str(path), major_version: major, vendor_hint: None }
}

/// The path that `which java` printed, trimmed.
pub fn java_path_from_which(success: bool, stdout: &str) -> (r: AppResult<String>)
    ensures
        (!success || trim_spec(stdout@).len() == 0) ==> (r matches Err(e) && is_message(
            e,
            "`java` not found on PATH"@,
        )),
        (success && trim_spec(stdout@).len() > 0) ==> (r matches Ok(p) && p@ == trim_spec(
            stdout@,
        )),
{
    if !success {
        return Err(AppError::msg("`java` not found on PATH"));
    }
    let p = trim(stdout);
    if p.as_str().is_empty() {
        return Err(AppError::msg("`java` not found on PATH"));
    }
    Ok(p)
}


// ---------------------------------------------------------------------------
// Choosing among detected runtimes
// ---------------------------------------------------------------------------

/// Runtimes keyed by their major version.
pub open spec fn keyed_by_major(rts: Seq<JavaRuntime>) -> Seq<(u32, JavaRuntime)> {
    rts.map_values(|r: JavaRuntime| (r.major_version, r))
}

/// The runtimes of keyed runtimes.
pub open spec fn runtimes_of(s: Seq<(u32, JavaRuntime)>) -> Seq<JavaRuntime> {
    s.map_values(|p: (u32, JavaRuntime)| p.1)
}

/// The first runtime of at least major version `req`.
pub open spec fn first_at_least(s: Seq<(u32, JavaRuntime)>, req: u32) -> Option<JavaRuntime>
    decreases s.len(),
{
    if s.len() == 0 {
        None
    } else if s[0].0 >= req {
        Some(s[0].1)
    } else {
        first_at_least(s.drop_first(), req)
    }
}

fn keyed_runtimes(rts: Vec<JavaRuntime>) -> (r: Vec<(u32, JavaRuntime)>)
    ensures
        r@ == keyed_by_major(rts@),
{
    let ghost orig = rts@;
    let mut rts = rts;
    let mut out: Vec<(u32, JavaRuntime)> = Vec::new();
    while rts.len() > 0
        invariant
            out@.len() + rts@.len() == orig.len(),
            rts@ == orig.skip(out@.len() as int),
            out@ == keyed_by_major(orig.take(out@.len() as int)),
        decreases rts@.len(),
    {
        let ghost k = out@.len();
        assert(rts@[0] == orig[k as int]);
        let x = rts.remove(0);
        let m = x.major_version;
        out.push((m, x));
        assert(rts@ =~= orig.skip((k + 1) as int));
        assert(out@ =~= keyed_by_major(orig.take((k + 1) as int)));
    }
    assert(orig.take(orig.len() as int) =~= orig);
    out
}

fn unkeyed_runtimes(keyed: Vec<(u32, JavaRuntime)>) -> (r: Vec<JavaRuntime>)
    ensures
        r@ == runtimes_of(keyed@),
{
    let ghost orig = keyed@;
    let mut keyed = keyed;
    let mut out: Vec<JavaRuntime> = Vec::new();
    while keyed.len() > 0
        invariant
            out@.len() + keyed@.len() == orig.len(),
            keyed@ == orig.skip(out@.len() as int),
            out@ == runtimes_of(orig.take(out@.len() as int)),
        decreases keyed@.len(),
    {
        let ghost k = out@.len();
        assert(keyed@[0] == orig[k as int]);
        let (_, x) = keyed.remove(0);
        out.push(x);
        assert(keyed@ =~= orig.skip((k + 1) as int));
        assert(out@ =~= runtimes_of(orig.take((k + 1) as int)));
    }
    assert(orig.take(orig.len() as int) =~= orig);
    out
}

/// The runtimes, newest major version first; runtimes of one major
/// version keep their order.
pub fn sort_runtimes_desc(runtimes: Vec<JavaRuntime>) -> (r: Vec<JavaRuntime>)
    ensures
        r@ == runtimes_of(sort_by_num_desc_spec(keyed_by_major(runtimes@))),
{
    let keyed = keyed_runtimes(runtimes);
    let sorted = sort_by_num_desc(keyed);
    unkeyed_runtimes(sorted)
}

/// The runtime to use for `required_major` among the detected ones: the
/// first of at least that version once they are sorted newest first;
/// `JavaNotFound` when none is new enough.
pub fn find_system_java(runtimes: Vec<JavaRuntime>, required_major: u32) -> (r: AppResult<
    JavaRuntime,
>)
    ensures
        match first_at_least(sort_by_num_desc_spec(keyed_by_major(runtimes@)), required_major) {
            Some(rt) => r matches Ok(x) && x == rt,
            None => r matches Err(AppError::JavaNotFound { required }) && required
                == required_major,
        },
{
    let ghost orig = runtimes@;
    let keyed = keyed_runtimes(runtimes);
    let sorted = sort_by_num_desc(keyed);
    let ghost sv = sorted@;
    let mut i: usize = 0;
    assert(sv.skip(0) =~= sv);
    while i < sorted.len()
        invariant
            i <= sorted@.len(),
            sorted@ == sv,
            sv == sort_by_num_desc_spec(keyed_by_major(orig)),
            orig == runtimes@,
            first_at_least(sv, required_major) == first_at_least(sv.skip(i as int), required_major),
        decreases sorted.len() - i,
    {
        assert(sv.skip(i as int)[0] == sv[i as int]);
        assert(sv.skip(i as int).drop_first() =~= sv.skip(i + 1));
        if sorted[i].0 >= required_major {
            let rt = sorted[i].1.clone_runtime();
            assert(first_at_least(sv, required_major) == Some(sv[i as int].1));
            assert(rt == sv[i as int].1);
            return Ok(rt);
        }
        i += 1;
    }
    Err(AppError::JavaNotFound { required: required_major })
}

impl JavaRuntime {
    /// A copy of this runtime.
    pub fn clone_runtime(&self) -> (r: JavaRuntime)
        ensures
            r == *self,
    {
        JavaRuntime {
            path: self.path.clone(),
            major_version: self.major_version,
            vendor_hint: match &self.vendor_hint {
                Some(v) => Some(v.clone()),
                None => None,
            },
        }
    }
}

/// Law: the runtime chosen for a required version is one of the detected
/// runtimes, is new enough, and has the newest major version of them all;
/// none is chosen only when every runtime is older than required.
pub proof fn lemma_find_system_java_newest(runtimes: Seq<JavaRuntime>, required: u32)
    ensures
        first_at_least(sort_by_num_desc_spec(keyed_by_major(runtimes)), required) matches Some(rt)
            ==> (runtimes.contains(rt) && rt.major_version >= required && forall|i: int|
            0 <= i < runtimes.len() ==> (#[trigger] runtimes[i]).major_version
                <= rt.major_version),
        first_at_least(sort_by_num_desc_spec(keyed_by_major(runtimes)), required) is None
            ==> forall|i: int|
            0 <= i < runtimes.len() ==> (#[trigger] runtimes[i]).major_version < required,
{
    broadcast use vstd::seq_lib::group_to_multiset_ensures;

    let k = keyed_by_major(runtimes);
    let s = sort_by_num_desc_spec(k);
    lemma_sort_by_num_desc(k);
    assert forall|j: int| 0 <= j < s.len() implies (#[trigger] s[j]).0 == s[j].1.major_version
        && runtimes.contains(s[j].1) by {
        assert(s.to_multiset().count(s[j]) > 0);
        assert(k.to_multiset().count(s[j]) > 0);
        assert(k.contains(s[j]));
        let m = choose|m: int| 0 <= m < k.len() && k[m] == s[j];
        assert(k[m] == (runtimes[m].major_version, runtimes[m]));
    }
    assert forall|i: int| 0 <= i < runtimes.len() implies exists|j: int|
        0 <= j < s.len() && s[j] == #[trigger] k[i] by {
        assert(k.contains(k[i]));
        assert(k.to_multiset().count(k[i]) > 0);
        assert(s.to_multiset().count(k[i]) > 0);
        assert(s.contains(k[i]));
    }
    lemma_first_at_least(s, required);
    if let Some(rt) = first_at_least(s, required) {
        assert forall|i: int| 0 <= i < runtimes.len() implies (#[trigger] runtimes[i]).major_version
            <= rt.major_version by {
            let j = choose|j: int| 0 <= j < s.len() && s[j] == k[i];
            assert(k[i] == (runtimes[i].major_version, runtimes[i]));
            if j > 0 {
                assert(s[0].0 >= s[j].0);
            }
        }
    } else {
        assert forall|i: int| 0 <= i < runtimes.len() implies (#[trigger] runtimes[i]).major_version
            < required by {
            let j = choose|j: int| 0 <= j < s.len() && s[j] == k[i];
            assert(k[i] == (runtimes[i].major_version, runtimes[i]));
        }
    }
}

proof fn lemma_first_at_least(s: Seq<(u32, JavaRuntime)>, req: u32)
    requires
        num_sorted_desc(s),
    ensures
        first_at_least(s, req) matches Some(rt) ==> s.len() > 0 && rt == s[0].1 && s[0].0 >= req,
        first_at_least(s, req) is None ==> forall|j: int| 0 <= j < s.len() ==> (#[trigger] s[j]).0
            < req,
    decreases s.len(),
{
    if s.len() > 0 {
        if s[0].0 < req {
            let t = s.drop_first();
            assert forall|i: int, j: int| 0 <= i < j < t.len() implies #[trigger] t[i].0
                >= #[trigger] t[j].0 by {
                assert(t[i] == s[i + 1]);
                assert(t[j] == s[j + 1]);
            }
            lemma_first_at_least(t, req);
            if let Some(rt) = first_at_least(t, req) {
                assert(s[0].0 >= s[1].0);
                assert(false);
            }
            assert forall|j: int| 0 <= j < s.len() implies (#[trigger] s[j]).0 < req by {
                if j > 0 {
                    assert(s[j] == t[j - 1]);
                }
            }
        }
    }
}

/// `s` with later repeats of a path dropped.
pub open spec fn dedup_spec(s: Seq<Seq<char>>) -> Seq<Seq<char>>
    decreases s.len(),
{
    if s.len() == 0 {
        s
    } else {
        let d = dedup_spec(s.drop_last());
        if d.contains(s.last()) {
            d
        } else {
            d.push(s.last())
        }
    }
}

/// The paths, each kept only where it first occurs.
pub fn unique_paths(paths: &Vec<String>) -> (r: Vec<String>)
    ensures
        views(r@) == dedup_spec(views(paths@)),
{
    let mut out: Vec<String> = Vec::new();
    let mut i: usize = 0;
    assert(views(paths@).take(0) =~= Seq::<Seq<char>>::empty());
    while i < paths.len()
        invariant
            i <= paths@.len(),
            views(out@) == dedup_spec(views(paths@).take(i as int)),
        decreases paths.len() - i,
    {
        let ghost vs = views(paths@);
        assert(vs.take(i + 1).drop_last() =~= vs.take(i as int));
        assert(vs.take(i + 1).last() == paths@[i as int]@);
        let mut seen = false;
        let mut j: usize = 0;
        while j < out.len()
            invariant
                j <= out@.len(),
                i < paths@.len(),
                seen == exists|k: int| 0 <= k < j && (#[trigger] out@[k])@ == paths@[i as int]@,
            decreases out.len() - j,
        {
            if str_eq(out[j].as_str(), paths[i].as_str()) {
                seen = true;
            }
            j += 1;
        }
        proof {
            if seen {
                let k = choose|k: int| 0 <= k < out@.len() && (#[trigger] out@[k])@
                    == paths@[i as int]@;
                assert(views(out@)[k] == paths@[i as int]@);
            } else {
                assert forall|k: int| 0 <= k < views(out@).len() implies views(out@)[k]
                    != paths@[i as int]@ by {
                    assert(views(out@)[k] == out@[k]@);
                }
            }
        }
        if !seen {
            let ghost before = out@;
            out.push(paths[i].clone());
            assert(views(out@) =~= views(before).push(paths@[i as int]@));
        }
        i += 1;
    }
    assert(views(paths@).take(paths@.len() as int) =~= views(paths@));
    out
}


// ---------------------------------------------------------------------------
// Runtime components
// ---------------------------------------------------------------------------

/// Mojang's runtime component for a Java major version.
pub open spec fn component_for_major_spec(major: u32) -> Seq<char> {
    if major <= 8 {
        "jre-legacy"@
    } else if major <= 16 {
        "java-runtime-alpha"@
    } else if major == 17 {
        "java-runtime-gamma"@
    } else if major <= 21 {
        "java-runtime-delta"@
    } else {
        "java-runtime-epsilon"@
    }
}

pub fn component_for_major(major: u32) -> (r: &'static str)
    ensures
        r@ == component_for_major_spec(major),
{
    if major <= 8 {
        "jre-legacy"
    } else if major <= 16 {
        "java-runtime-alpha"
    } else if major == 17 {
        "java-runtime-gamma"
    } else if major <= 21 {
        "java-runtime-delta"
    } else {
        "java-runtime-epsilon"
    }
}

/// The Java binary of a runtime component that the launcher manages.
pub open spec fn managed_java_bin_spec(paths: AppPaths, component: Seq<char>) -> Seq<char> {
    path_join(path_join(path_join(paths.runtime_dir_spec(), component), "bin"@), java_bin_name_spec())
}

pub fn managed_java_bin(paths: &AppPaths, component: &str) -> (r: String)
    ensures
        r@ == managed_java_bin_spec(*paths, component@),
{
    let d = paths.runtime_dir();
    let d = join_path(d.as_str(), component);
    let d = join_path(d.as_str(), "bin");
    join_path(d.as_str(), AppPaths::java_bin_name())
}

/// The marker file written once a runtime component is fully installed.
pub fn runtime_marker(paths: &AppPaths, component: &str) -> (r: String)
    ensures
        r@ == path_join(path_join(paths.runtime_dir_spec(), component@), ".cubic-complete"@),
{
    let d = paths.runtime_dir();
    let d = join_path(d.as_str(), component);
    join_path(d.as_str(), ".cubic-complete")
}

fn join_all(base: &str, parts: &Vec<&str>) -> (r: String)
    ensures
        r@ == join_all_spec(base@, parts@.map_values(|p: &str| p@)),
{
    let mut cur = copy_str(base);
    let mut i: usize = 0;
    let ghost ps = parts@.map_values(|p: &str| p@);
    assert(ps.take(0) =~= Seq::<Seq<char>>::empty());
    while i < parts.len()
        invariant
            i <= parts@.len(),
            ps == parts@.map_values(|p: &str| p@),
            cur@ == join_all_spec(base@, ps.take(i as int)),
        decreases parts.len() - i,
    {
        assert(ps.take(i + 1).drop_last() =~= ps.take(i as int));
        assert(ps.take(i + 1).last() == parts@[i as int]@);
        cur = join_path(cur.as_str(), parts[i]);
        i += 1;
    }
    assert(ps.take(parts@.len() as int) =~= ps);
    cur
}

/// `base` joined with each part in turn.
pub open spec fn join_all_spec(base: Seq<char>, parts: Seq<Seq<char>>) -> Seq<char>
    decreases parts.len(),
{
    if parts.len() == 0 {
        base
    } else {
        path_join(join_all_spec(base, parts.drop_last()), parts.last())
    }
}

/// Where a runtime component may already be installed, in the order they
/// are tried: the launcher's own runtimes; with `APPDATA`, Prism
/// Launcher's and the official launcher's Windows runtimes; with
/// `LOCALAPPDATA`, Prism Launcher's; on Unix with `HOME`, Prism Launcher's
/// and the official launcher's Linux runtimes.
pub open spec fn component_candidates_spec(
    paths: AppPaths,
    component: Seq<char>,
    appdata: Option<Seq<char>>,
    local_appdata: Option<Seq<char>>,
    home: Option<Seq<char>>,
    unix: bool,
) -> Seq<Seq<char>> {
    let bin = java_bin_name_spec();
    let a = seq![managed_java_bin_spec(paths, component)];
    let b = match appdata {
        Some(d) => seq![
            join_all_spec(d, seq!["PrismLauncher"@, "java"@, component, "bin"@, bin]),
            join_all_spec(
                d,
                seq![".minecraft"@, "runtime"@, component, "windows-x64"@, component, "bin"@, bin],
            ),
        ],
        None => Seq::<Seq<char>>::empty(),
    };
    let c = match local_appdata {
        Some(d) => seq![join_all_spec(d, seq!["PrismLauncher"@, "java"@, component, "bin"@, bin])],
        None => Seq::<Seq<char>>::empty(),
    };
    let e = match home {
        Some(h) => if unix {
            seq![
                join_all_spec(h, seq![".local/share/PrismLauncher/java"@, component, "bin/java"@]),
                join_all_spec(
                    h,
                    seq![".minecraft/runtime"@, component, "linux"@, component, "bin/java"@],
                ),
            ]
        } else {
            Seq::<Seq<char>>::empty()
        },
        None => Seq::<Seq<char>>::empty(),
    };
    a + b + c + e
}

/// Where a runtime component may already be installed.
pub fn component_candidates(
    paths: &AppPaths,
    component: &str,
    appdata: Option<&str>,
    local_appdata: Option<&str>,
    home: Option<&str>,
    unix: bool,
) -> (r: Vec<String>)
    ensures
        views(r@) == component_candidates_spec(
            *paths,
            component@,
            match appdata {
                Some(d) => Some(d@),
                None => None,
            },
            match local_appdata {
                Some(d) => Some(d@),
                None => None,
            },
            match home {
                Some(d) => Some(d@),
                None => None,
            },
            unix,
        ),
{
    let bin = AppPaths::java_bin_name();
    let mut out: Vec<String> = Vec::new();
    out.push(managed_java_bin(paths, component));
    let ghost a = views(out@);
    if let Some(d) = appdata {
        let p1 = vec!["PrismLauncher", "java", component, "bin", bin];
        out.push(join_all(d, &p1));
        let p2 = vec![".minecraft", "runtime", component, "windows-x64", component, "bin", bin];
        out.push(join_all(d, &p2));
        assert(p1@.map_values(|p: &str| p@) =~= seq!["PrismLauncher"@, "java"@, component@, "bin"@, bin@]);
        assert(p2@.map_values(|p: &str| p@) =~= seq![".minecraft"@, "runtime"@, component@, "windows-x64"@, component@, "bin"@, bin@]);
    }
    let ghost ab = views(out@);
    if let Some(d) = local_appdata {
        let p1 = vec!["PrismLauncher", "java", component, "bin", bin];
        out.push(join_all(d, &p1));
        assert(p1@.map_values(|p: &str| p@) =~= seq!["PrismLauncher"@, "java"@, component@, "bin"@, bin@]);
    }
    let ghost abc = views(out@);
    if unix {
        if let Some(h) = home {
            let p1 = vec![".local/share/PrismLauncher/java", component, "bin/java"];
            out.push(join_all(h, &p1));
            let p2 = vec![".minecraft/runtime", component, "linux", component, "bin/java"];
            out.push(join_all(h, &p2));
            assert(p1@.map_values(|p: &str| p@) =~= seq![".local/share/PrismLauncher/java"@, component@, "bin/java"@]);
            assert(p2@.map_values(|p: &str| p@) =~= seq![".minecraft/runtime"@, component@, "linux"@, component@, "bin/java"@]);
        }
    }
    assert(views(out@) =~= component_candidates_spec(
        *paths,
        component@,
        match appdata {
            Some(d) => Some(d@),
            None => None,
        },
        match local_appdata {
            Some(d) => Some(d@),
            None => None,
        },
        match home {
            Some(d) => Some(d@),
            None => None,
        },
        unix,
    ));
    out
}

/// The key of Mojang's runtime list for an OS and CPU (as
/// `std::env::consts::OS` and `ARCH` name them).
pub open spec fn runtime_platform_key_spec(os: Seq<char>, arch: Seq<char>) -> Seq<char> {
    if os == "linux"@ {
        if arch == "x86"@ {
            "linux-i386"@
        } else {
            "linux"@
        }
    } else if os == "macos"@ {
        if arch == "aarch64"@ {
            "mac-os-arm64"@
        } else {
            "mac-os"@
        }
    } else if os == "windows"@ {
        if arch == "aarch64"@ {
            "windows-arm64"@
        } else if arch == "x86"@ {
            "windows-x86"@
        } else {
            "windows-x64"@
        }
    } else {
        "linux"@
    }
}

pub fn runtime_platform_key(os: &str, arch: &str) -> (r: &'static str)
    ensures
        r@ == runtime_platform_key_spec(os@, arch@),
{
    if str_eq(os, "linux") {
        if str_eq(arch, "x86") {
            "linux-i386"
        } else {
            "linux"
        }
    } else if str_eq(os, "macos") {
        if str_eq(arch, "aarch64") {
            "mac-os-arm64"
        } else {
            "mac-os"
        }
    } else if str_eq(os, "windows") {
        if str_eq(arch, "aarch64") {
            "windows-arm64"
        } else if str_eq(arch, "x86") {
            "windows-x86"
        } else {
            "windows-x64"
        }
    } else {
        "linux"
    }
}

/// The component to install: the requested one unless absent or empty,
/// else the one for the major version.
pub fn effective_component(component: Option<&str>, required_major: u32) -> (r: String)
    ensures
        r@ == match component {
            Some(c) => if c@.len() > 0 {
                c@
            } else {
                component_for_major_spec(required_major)
            },
            None => component_for_major_spec(required_major),
        },
{
    match component {
        Some(c) => if !c.is_empty() {
            copy_str(c)
        } else {
            copy_str(component_for_major(required_major))
        },
        None => copy_str(component_for_major(required_major)),
    }
}

/// A configured Java is used only if new enough.
pub fn accept_override(runtime: JavaRuntime, required_major: u32) -> (r: AppResult<JavaRuntime>)
    ensures
        runtime.major_version >= required_major ==> (r matches Ok(x) && x == runtime),
        runtime.major_version < required_major ==> (r matches Err(e) && is_message(
            e,
            "Configured Java at "@ + runtime.path@ + " is major "@ + decimal(
                runtime.major_version as nat,
            ) + ", need "@ + decimal(required_major as nat),
        )),
{
    if runtime.major_version >= required_major {
        return Ok(runtime);
    }
    let mut m = concat2("Configured Java at ", runtime.path.as_str());
    m.append(" is major ");
    m.append(u32_to_string(runtime.major_version).as_str());
    m.append(", need ");
    m.append(u32_to_string(required_major).as_str());
    Err(AppError::Message(m))
}

/// A freshly installed component is used only if new enough.
pub fn accept_installed(component: &str, runtime: JavaRuntime, required_major: u32) -> (r: AppResult<
    JavaRuntime,
>)
    ensures
        runtime.major_version >= required_major ==> (r matches Ok(x) && x == runtime),
        runtime.major_version < required_major ==> (r matches Err(e) && is_message(
            e,
            "Installed "@ + component@ + " is major "@ + decimal(runtime.major_version as nat)
                + ", need "@ + decimal(required_major as nat),
        )),
{
    if runtime.major_version >= required_major {
        return Ok(runtime);
    }
    let mut m = concat2("Installed ", component);
    m.append(" is major ");
    m.append(u32_to_string(runtime.major_version).as_str());
    m.append(", need ");
    m.append(u32_to_string(required_major).as_str());
    Err(AppError::Message(m))
}

/// The Java a profile needs: its major version (8 when it names none) and
/// its runtime component, if named.
pub fn java_requirement(version: &crate::metadata::types::VersionJson) -> (r: (u32, Option<String>))
    ensures
        r.0 == match version.java_version {
            Some(j) => j.major_version,
            None => 8,
        },
        match version.java_version {
            Some(j) => match j.component {
                Some(c) => r.1 matches Some(x) && x@ == c@,
                None => r.1 is None,
            },
            None => r.1 is None,
        },
{
    match &version.java_version {
        Some(j) => (
            j.major_version,
            match &j.component {
                Some(c) => Some(c.clone()),
                None => None,
            },
        ),
        None => (8, None),
    }
}


// ---------------------------------------------------------------------------
// Mojang runtime manifests
// ---------------------------------------------------------------------------

#[derive(Debug, Clone)]
pub struct ManifestRef {
    pub sha1: String,
    pub url: String,
}

#[derive(Debug, Clone)]
pub struct RuntimeVersion {
    pub manifest: ManifestRef,
}

#[derive(Debug, Clone)]
pub struct RuntimeFileDownloads {
    pub raw: RuntimeDownload,
}

#[derive(Debug, Clone)]
pub struct RuntimeDownload {
    pub sha1: String,
    pub url: String,
    pub size: u64,
}

/// One path of a runtime: a directory, a file, or a link.
#[derive(Debug, Clone)]
pub struct RuntimeFileEntry {
    pub kind: String,
    pub downloads: Option<RuntimeFileDownloads>,
    pub executable: bool,
    pub target: Option<String>,
}

/// The files of a runtime, by path.
#[derive(Debug, Clone)]
pub struct RuntimeManifest {
    pub files: Vec<(String, RuntimeFileEntry)>,
}

/// Mojang's list of runtimes: platform, then component, then versions.
pub type RuntimeIndex = Vec<(String, Vec<(String, Vec<RuntimeVersion>)>)>;

/// The manifest of the first version of `component` for `platform`, or why
/// there is none.
pub open spec fn select_runtime_spec(
    all: Seq<(String, Vec<(String, Vec<RuntimeVersion>)>)>,
    platform: Seq<char>,
    component: Seq<char>,
) -> Result<ManifestRef, Seq<char>> {
    match lookup(all, platform) {
        Some(m) => match lookup(m@, component) {
            Some(vs) => if vs@.len() > 0 {
                Ok(vs@[0].manifest)
            } else {
                Err("Empty runtime list for "@ + component)
            },
            None => Err(no_runtime_text(platform, component)),
        },
        None => Err(no_runtime_text(platform, component)),
    }
}

pub open spec fn no_runtime_text(platform: Seq<char>, component: Seq<char>) -> Seq<char> {
    "No Mojang Java runtime '"@ + component + "' for platform '"@ + platform + "'"@
}

/// The manifest to download for `component` on `platform`.
pub fn select_runtime_manifest(all: &RuntimeIndex, platform: &str, component: &str) -> (r: AppResult<
    ManifestRef,
>)
    ensures
        match select_runtime_spec(all@, platform@, component@) {
            Ok(m) => r matches Ok(x) && x.sha1@ == m.sha1@ && x.url@ == m.url@,
            Err(t) => r matches Err(e) && is_message(e, t),
        },
{
    let err = {
        let mut m = concat2("No Mojang Java runtime '", component);
        m.append("' for platform '");
        m.append(platform);
        m.append("'");
        m
    };
    let comps = match lookup_ref(all, platform) {
        Some(c) => c,
        None => {
            return Err(AppError::Message(err));
        },
    };
    let versions = match lookup_ref(comps, component) {
        Some(v) => v,
        None => {
            return Err(AppError::Message(err));
        },
    };
    if versions.len() == 0 {
        return Err(AppError::Message(concat2("Empty runtime list for ", component)));
    }
    let m = &versions[0].manifest;
    Ok(ManifestRef { sha1: m.sha1.clone(), url: m.url.clone() })
}

/// How a runtime is laid out on disk: directories in the manifest's order;
/// files and links sorted by path.
#[derive(Debug)]
pub struct RuntimePlan {
    pub dirs: Vec<String>,
    pub files: Vec<(String, RuntimeFileEntry)>,
    pub links: Vec<(String, String)>,
}

pub open spec fn dirs_of(files: Seq<(String, RuntimeFileEntry)>) -> Seq<Seq<char>>
    decreases files.len(),
{
    if files.len() == 0 {
        Seq::<Seq<char>>::empty()
    } else if files.last().1.kind@ == "directory"@ {
        dirs_of(files.drop_last()).push(files.last().0@)
    } else {
        dirs_of(files.drop_last())
    }
}

pub open spec fn file_jobs_of(files: Seq<(String, RuntimeFileEntry)>) -> Seq<(String, RuntimeFileEntry)>
    decreases files.len(),
{
    if files.len() == 0 {
        files
    } else if files.last().1.kind@ == "file"@ {
        file_jobs_of(files.drop_last()).push(files.last())
    } else {
        file_jobs_of(files.drop_last())
    }
}

pub open spec fn link_jobs_of(files: Seq<(String, RuntimeFileEntry)>) -> Seq<(String, String)>
    decreases files.len(),
{
    if files.len() == 0 {
        Seq::<(String, String)>::empty()
    } else if files.last().1.kind@ == "link"@ && files.last().1.target is Some {
        link_jobs_of(files.drop_last()).push((files.last().0, files.last().1.target.unwrap()))
    } else {
        link_jobs_of(files.drop_last())
    }
}

/// The layout of a runtime manifest.
pub fn plan_runtime_files(files: Vec<(String, RuntimeFileEntry)>) -> (p: RuntimePlan)
    ensures
        views(p.dirs@) == dirs_of(files@),
        p.files@ == sort_by_text_spec(file_jobs_of(files@)),
        p.links@ == sort_by_text_spec(link_jobs_of(files@)),
{
    let ghost orig = files@;
    let mut files = files;
    let mut dirs: Vec<String> = Vec::new();
    let mut jobs: Vec<(String, RuntimeFileEntry)> = Vec::new();
    let mut links: Vec<(String, String)> = Vec::new();
    let mut k: usize = 0;
    let n = files.len();
    assert(orig.take(0) =~= Seq::<(String, RuntimeFileEntry)>::empty());
    while files.len() > 0
        invariant
            k + files@.len() == orig.len(),
            orig.len() == n,
            files@ == orig.skip(k as int),
            views(dirs@) == dirs_of(orig.take(k as int)),
            jobs@ == file_jobs_of(orig.take(k as int)),
            links@ == link_jobs_of(orig.take(k as int)),
        decreases files@.len(),
    {
        assert(files@[0] == orig[k as int]);
        assert(orig.take(k + 1).drop_last() =~= orig.take(k as int));
        assert(orig.take(k + 1).last() == orig[k as int]);
        let item = files.remove(0);
        proof {
            reveal_strlit("directory");
            reveal_strlit("file");
            reveal_strlit("link");
            assert("directory"@.len() == 9);
            assert("file"@.len() == 4);
            assert("link"@.len() == 4);
            assert("link"@[0] != "file"@[0]);
        }
        let is_dir = str_eq(item.1.kind.as_str(), "directory");
        let is_file = str_eq(item.1.kind.as_str(), "file");
        let is_link = str_eq(item.1.kind.as_str(), "link");
        if is_dir {
            let ghost before = dirs@;
            let (rel, _) = item;
            dirs.push(rel);
            assert(views(dirs@) =~= views(before).push(orig[k as int].0@));
        } else if is_file {
            jobs.push(item);
        } else if is_link {
            let (rel, entry) = item;
            if let Some(t) = entry.target {
                links.push((rel, t));
            }
        }
        assert(files@ =~= orig.skip(k + 1));
        assert(file_jobs_of(orig.take(k + 1)) == (if orig[k as int].1.kind@ == "file"@ {
            file_jobs_of(orig.take(k as int)).push(orig[k as int])
        } else {
            file_jobs_of(orig.take(k as int))
        }));
        k += 1;
    }
    assert(orig.take(orig.len() as int) =~= orig);
    RuntimePlan { dirs, files: sort_by_text_key(jobs), links: sort_by_text_key(links) }
}

/// A runtime file to fetch.
#[derive(Debug)]
pub struct RuntimeFileJob {
    pub dest: String,
    pub sha1: String,
    pub url: String,
    pub size: u64,
    pub executable: bool,
}

/// Where and how to fetch a runtime file; an error when the manifest gives
/// no download for it.
pub fn runtime_file_job(dest_root: &str, rel: &str, entry: RuntimeFileEntry) -> (r: AppResult<
    RuntimeFileJob,
>)
    ensures
        match entry.downloads {
            Some(d) => r matches Ok(j) && j.dest@ == path_join(dest_root@, rel@) && j.sha1
                == d.raw.sha1 && j.url == d.raw.url && j.size == d.raw.size && j.executable
                == entry.executable,
            None => r matches Err(e) && is_message(
                e,
                "Runtime file "@ + rel@ + " is missing downloads"@,
            ),
        },
{
    match entry.downloads {
        Some(d) => Ok(
            RuntimeFileJob {
                dest: join_path(dest_root, rel),
                sha1: d.raw.sha1,
                url: d.raw.url,
                size: d.raw.size,
                executable: entry.executable,
            },
        ),
        None => {
            let mut m = concat2("Runtime file ", rel);
            m.append(" is missing downloads");
            Err(AppError::Message(m))
        },
    }
}


// ---------------------------------------------------------------------------
// Choosing the Java to launch with
// ---------------------------------------------------------------------------

/// A search for a Java runtime of at least `required_major`, for the
/// runtime component `component`.
#[derive(Debug, Clone)]
pub struct JavaSearch {
    pub required_major: u32,
    pub component: String,
}

/// What the outside work reports back to a Java search.
#[derive(Debug)]
pub enum JavaEvent {
    /// The search starts, with the configured Java, if any.
    Begin { override_path: Option<String> },
    /// The configured Java was inspected.
    OverrideInspected(AppResult<JavaRuntime>),
    /// The first known location of the component that holds a file, if any.
    ComponentFound(Option<String>),
    /// The runtime found for the component was inspected.
    ComponentInspected(AppResult<JavaRuntime>),
    /// The runtimes detected on the system, or why detection failed.
    SystemScanned(AppResult<Vec<JavaRuntime>>),
    /// The component was installed (or failed to be).
    Installed(AppResult<()>),
    /// The installed component was inspected.
    InstalledInspected(AppResult<JavaRuntime>),
}

/// The next step of a Java search.
#[derive(Debug)]
pub enum JavaStep {
    /// Inspect the Java at this path (the configured one).
    InspectOverride(String),
    /// Look for the component in its known locations.
    FindComponent,
    /// Inspect the Java of the component found at this path.
    InspectComponent(String),
    /// Detect the runtimes installed on the system.
    ScanSystem,
    /// Install the component from Mojang.
    Install,
    /// Inspect the Java of the installed component, at this path.
    InspectInstalled,
    /// The search is over.
    Finish(AppResult<JavaRuntime>),
}

/// Whether a step ends the search with a runtime that is old enough.
pub open spec fn finishes_suitable(step: JavaStep, required: u32) -> bool {
    step matches JavaStep::Finish(Ok(rt)) && rt.major_version >= required
}

impl JavaSearch {
    /// A search for `required_major`, for the requested component (when
    /// not absent or empty) or the one for that major version.
    pub fn new(required_major: u32, component: Option<&str>) -> (r: JavaSearch)
        ensures
            r.required_major == required_major,
            r.component@ == match component {
                Some(c) => if c@.len() > 0 {
                    c@
                } else {
                    component_for_major_spec(required_major)
                },
                None => component_for_major_spec(required_major),
            },
    {
        JavaSearch { required_major, component: effective_component(component, required_major) }
    }

    /// The next step after `event`: the configured Java decides alone when
    /// there is one; otherwise a known runtime of the component that is new
    /// enough, else the newest suitable system runtime, else Mojang's
    /// runtime once installed (if it is new enough).
    pub fn next(&self, event: JavaEvent) -> (r: JavaStep)
        ensures
            match event {
                JavaEvent::Begin { override_path } => match override_path {
                    Some(p) => r == JavaStep::InspectOverride(p),
                    None => r is FindComponent,
                },
                JavaEvent::OverrideInspected(inspected) => match inspected {
                    Err(e) => r == JavaStep::Finish(Err(e)),
                    Ok(rt) => if rt.major_version >= self.required_major {
                        r == JavaStep::Finish(Ok(rt))
                    } else {
                        r matches JavaStep::Finish(Err(e)) && is_message(
                            e,
                            "Configured Java at "@ + rt.path@ + " is major "@ + decimal(
                                rt.major_version as nat,
                            ) + ", need "@ + decimal(self.required_major as nat),
                        )
                    },
                },
                JavaEvent::ComponentFound(found) => match found {
                    Some(p) => r == JavaStep::InspectComponent(p),
                    None => r is ScanSystem,
                },
                JavaEvent::ComponentInspected(inspected) => match inspected {
                    Ok(rt) => if rt.major_version >= self.required_major {
                        r == JavaStep::Finish(Ok(rt))
                    } else {
                        r is ScanSystem
                    },
                    Err(_) => r is ScanSystem,
                },
                JavaEvent::SystemScanned(scanned) => match scanned {
                    Ok(list) => match first_at_least(
                        sort_by_num_desc_spec(keyed_by_major(list@)),
                        self.required_major,
                    ) {
                        Some(rt) => r == JavaStep::Finish(Ok(rt)),
                        None => r is Install,
                    },
                    Err(_) => r is Install,
                },
                JavaEvent::Installed(done) => match done {
                    Ok(_) => r is InspectInstalled,
                    Err(e) => r == JavaStep::Finish(Err(e)),
                },
                JavaEvent::InstalledInspected(inspected) => match inspected {
                    Err(e) => r == JavaStep::Finish(Err(e)),
                    Ok(rt) => if rt.major_version >= self.required_major {
                        r == JavaStep::Finish(Ok(rt))
                    } else {
                        r matches JavaStep::Finish(Err(e)) && is_message(
                            e,
                            "Installed "@ + self.component@ + " is major "@ + decimal(
                                rt.major_version as nat,
                            ) + ", need "@ + decimal(self.required_major as nat),
                        )
                    },
                },
            },
            r matches JavaStep::Finish(Ok(_)) ==> finishes_suitable(r, self.required_major),
    {
        match event {
            JavaEvent::Begin { override_path } => match override_path {
                Some(p) => JavaStep::InspectOverride(p),
                None => JavaStep::FindComponent,
            },
            JavaEvent::OverrideInspected(inspected) => match inspected {
                Err(e) => JavaStep::Finish(Err(e)),
                Ok(rt) => JavaStep::Finish(accept_override(rt, self.required_major)),
            },
            JavaEvent::ComponentFound(found) => match found {
                Some(p) => JavaStep::InspectComponent(p),
                None => JavaStep::ScanSystem,
            },
            JavaEvent::ComponentInspected(inspected) => match inspected {
                Ok(rt) => if rt.major_version >= self.required_major {
                    JavaStep::Finish(Ok(rt))
                } else {
                    JavaStep::ScanSystem
                },
                Err(_) => JavaStep::ScanSystem,
            },
            JavaEvent::SystemScanned(scanned) => match scanned {
                Ok(list) => {
                    let ghost lv = list@;
                    match find_system_java(list, self.required_major) {
                        Ok(rt) => {
                            proof {
                                lemma_find_system_java_newest(lv, self.required_major);
                            }
                            JavaStep::Finish(Ok(rt))
                        },
                        Err(_) => JavaStep::Install,
                    }
                },
                Err(_) => JavaStep::Install,
            },
            JavaEvent::Installed(done) => match done {
                Ok(_) => JavaStep::InspectInstalled,
                Err(e) => JavaStep::Finish(Err(e)),
            },
            JavaEvent::InstalledInspected(inspected) => match inspected {
                Err(e) => JavaStep::Finish(Err(e)),
                Ok(rt) => JavaStep::Finish(
                    accept_installed(self.component.as_str(), rt, self.required_major),
                ),
            },
        }
    }
}

} // verus!
