use vstd::prelude::*;
use vstd::seq_lib::*;
use vstd::string::StrSliceExecFns;
use vstd::string::StringExecFns;

use crate::config::Config;
use crate::errors::ProjectError;
use crate::text::find_char;
use crate::text::lemma_find_char_bounds;
use crate::text::path_join;
use crate::text::starts_with;
use crate::text::str_eq;
use crate::text::strip_prefix;
use crate::text::trim;
use crate::text::trim_spec;
use crate::text::vec_contains_str;

verus! {

/// The build system discovered under a project root.
#[derive(Debug, Clone, Copy, PartialEq, Eq, Structural)]
pub enum BuildSystem {
    Gradle,
    Maven,
    /// No build system: stdlib-only analysis.
    Absent,
}

/// The resolved project model: everything the sidecar's `initialize`
/// needs.  Paths are carried as strings.
#[derive(Debug, Clone)]
pub struct ProjectModel {
    pub project_root: String,
    pub build_system: BuildSystem,
    pub source_roots: Vec<String>,
    pub classpath: Vec<String>,
    pub compiler_flags: Vec<String>,
    pub kotlin_version: Option<String>,
    pub jdk_home: Option<String>,
    /// Whether the project uses a compose UI framework.
    pub has_compose: bool,
    /// Source roots produced by annotation processors.
    pub generated_source_roots: Vec<String>,
}

impl ProjectModel {
    /// A minimal model for a project with no build system.
    pub fn no_build_system(project_root: String) -> (m: ProjectModel)
        ensures
            m.project_root == project_root,
            m.build_system == BuildSystem::Absent,
            m.source_roots@ == Seq::<String>::empty(),
            m.classpath@ == Seq::<String>::empty(),
            m.compiler_flags@ == Seq::<String>::empty(),
            m.kotlin_version is None,
            m.jdk_home is None,
            !m.has_compose,
            m.generated_source_roots@ == Seq::<String>::empty(),
    {
        ProjectModel {
            project_root,
            build_system: BuildSystem::Absent,
            source_roots: Vec::new(),
            classpath: Vec::new(),
            compiler_flags: Vec::new(),
            kotlin_version: None,
            jdk_home: None,
            has_compose: false,
            generated_source_roots: Vec::new(),
        }
    }
}

/// Which marker files a directory holds; the caller probes the file
/// system and fills this in.
#[derive(Debug, Clone, Copy, PartialEq, Eq, Structural)]
pub struct BuildMarkers {
    pub build_gradle_kts: bool,
    pub build_gradle: bool,
    pub settings_gradle_kts: bool,
    pub settings_gradle: bool,
    pub pom_xml: bool,
    /// A manual configuration file in this directory.
    pub manual_config: bool,
    /// A version-control root in this directory.
    pub git_dir: bool,
}

/// How markers choose the build system: a gradle build file wins,
/// then a maven one, else none.
pub open spec fn detect_spec(m: BuildMarkers) -> BuildSystem {
    if m.build_gradle_kts || m.build_gradle {
        BuildSystem::Gradle
    } else if m.pom_xml {
        BuildSystem::Maven
    } else {
        BuildSystem::Absent
    }
}

/// Detects the build system from a directory's marker files.
pub fn detect_build_system(m: &BuildMarkers) -> (b: BuildSystem)
    ensures
        b == detect_spec(*m),
{
    if m.build_gradle_kts || m.build_gradle {
        BuildSystem::Gradle
    } else if m.pom_xml {
        BuildSystem::Maven
    } else {
        BuildSystem::Absent
    }
}

/// Whether a directory counts as a project root: any build-system
/// marker, the manual configuration file, or a version-control root.
pub open spec fn has_root_marker(m: BuildMarkers) -> bool {
    m.build_gradle_kts || m.build_gradle || m.settings_gradle_kts || m.settings_gradle || m.pom_xml
        || m.manual_config || m.git_dir
}

fn dir_has_root_marker(m: &BuildMarkers) -> (r: bool)
    ensures
        r == has_root_marker(*m),
{
    m.build_gradle_kts || m.build_gradle || m.settings_gradle_kts || m.settings_gradle || m.pom_xml
        || m.manual_config || m.git_dir
}

pub open spec fn root_index_from(ms: Seq<BuildMarkers>, k: int) -> int
    decreases ms.len() - k when 0 <= k <= ms.len()
{
    if k >= ms.len() {
        ms.len() as int
    } else if has_root_marker(ms[k]) {
        k
    } else {
        root_index_from(ms, k + 1)
    }
}

/// Walks up from a starting directory: `ancestors` holds the markers
/// of the start and each parent, nearest first.  The first directory
/// with any marker is the project root; with none, the caller falls
/// back to the start.
pub fn find_project_root(ancestors: &Vec<BuildMarkers>) -> (r: Option<usize>)
    ensures
        r matches Some(i) ==> root_index_from(ancestors@, 0) == i && i < ancestors@.len()
            && has_root_marker(ancestors@[i as int]),
        r is None ==> root_index_from(ancestors@, 0) == ancestors@.len(),
{
    let mut i: usize = 0;
    while i < ancestors.len()
        invariant
            0 <= i <= ancestors@.len(),
            root_index_from(ancestors@, 0) == root_index_from(ancestors@, i as int),
        decreases ancestors@.len() - i,
    {
        if dir_has_root_marker(&ancestors[i]) {
            return Some(i);
        }
        i = i + 1;
    }
    None
}

/// What the resolver does next, in priority order.
#[derive(Debug, Clone, Copy, PartialEq, Eq, Structural)]
pub enum ResolutionStep {
    /// Read the manual configuration file; it always wins.
    UseManualConfig,
    /// Run the gradle build and parse its tagged output.
    RunGradle,
    /// Run the maven classpath extraction.
    RunMaven,
    /// Scan conventional source directories, stdlib only.
    StdlibOnly,
}

pub open spec fn resolution_spec(manual_config_exists: bool, b: BuildSystem) -> ResolutionStep {
    if manual_config_exists {
        ResolutionStep::UseManualConfig
    } else {
        match b {
            BuildSystem::Gradle => ResolutionStep::RunGradle,
            BuildSystem::Maven => ResolutionStep::RunMaven,
            BuildSystem::Absent => ResolutionStep::StdlibOnly,
        }
    }
}

/// Decides how the project model is resolved: a manual configuration
/// file takes priority over whatever build system the markers show.
pub fn resolve_project(manual_config_exists: bool, markers: &BuildMarkers) -> (r: ResolutionStep)
    ensures
        r == resolution_spec(manual_config_exists, detect_spec(*markers)),
{
    if manual_config_exists {
        ResolutionStep::UseManualConfig
    } else {
        match detect_build_system(markers) {
            BuildSystem::Gradle => ResolutionStep::RunGradle,
            BuildSystem::Maven => ResolutionStep::RunMaven,
            BuildSystem::Absent => ResolutionStep::StdlibOnly,
        }
    }
}

/// `extra` appended to `base`, skipping entries already present:
/// how configuration-supplied compiler flags join the build tool's.
pub open spec fn merge_flags_spec(base: Seq<Seq<char>>, extra: Seq<Seq<char>>) -> Seq<Seq<char>>
    decreases extra.len(),
{
    if extra.len() == 0 {
        base
    } else {
        let b2 = if base.contains(extra[0]) {
            base
        } else {
            base.push(extra[0])
        };
        merge_flags_spec(b2, extra.skip(1))
    }
}

/// Appends each of `extra` to `base` unless an equal string is
/// already there.
pub fn merge_flags(base: Vec<String>, extra: &Vec<String>) -> (r: Vec<String>)
    ensures
        r.deep_view() == merge_flags_spec(base.deep_view(), extra.deep_view()),
{
    let ghost base0 = base.deep_view();
    let mut out = base;
    let mut i: usize = 0;
    proof {
        assert(extra.deep_view().skip(0) =~= extra.deep_view());
    }
    while i < extra.len()
        invariant
            0 <= i <= extra@.len(),
            merge_flags_spec(base0, extra.deep_view()) == merge_flags_spec(
                out.deep_view(),
                extra.deep_view().skip(i as int),
            ),
        decreases extra@.len() - i,
    {
        let ghost pre = out.deep_view();
        let ghost rest = extra.deep_view().skip(i as int);
        proof {
            assert(rest[0] == extra.deep_view()[i as int]);
            assert(extra.deep_view()[i as int] == extra@[i as int]@);
            assert(rest.skip(1) =~= extra.deep_view().skip(i as int + 1));
        }
        if !vec_contains_str(&out, extra[i].as_str()) {
            out.push(extra[i].clone());
            proof {
                assert(out.deep_view() =~= pre.push(extra@[i as int]@));
            }
        }
        i = i + 1;
    }
    proof {
        assert(extra.deep_view().skip(extra@.len() as int) =~= Seq::<Seq<char>>::empty());
    }
    out
}

/// Merging keeps what was there, adds exactly the missing entries,
/// and introduces no duplicate: afterwards a flag is present exactly
/// when it came from either side, and a duplicate-free flag list
/// stays duplicate-free.
pub proof fn lemma_merge_flags(base: Seq<Seq<char>>, extra: Seq<Seq<char>>)
    ensures
        forall|x: Seq<char>|
            #[trigger] merge_flags_spec(base, extra).contains(x) <==> base.contains(x)
                || extra.contains(x),
        base.no_duplicates() ==> merge_flags_spec(base, extra).no_duplicates(),
        base.is_prefix_of(merge_flags_spec(base, extra)),
    decreases extra.len(),
{
    if extra.len() == 0 {
        assert forall|x: Seq<char>|
            #[trigger] merge_flags_spec(base, extra).contains(x) <==> base.contains(x)
                || extra.contains(x) by {
            if extra.contains(x) {
                let k = choose|k: int| 0 <= k < extra.len() && extra[k] == x;
            }
        }
        assert(base.is_prefix_of(base));
    } else {
        let b2 = if base.contains(extra[0]) {
            base
        } else {
            base.push(extra[0])
        };
        lemma_merge_flags(b2, extra.skip(1));
        if !base.contains(extra[0]) {
            assert(b2 == base.push(extra[0]));
            if base.no_duplicates() {
                assert(b2.no_duplicates()) by {
                    assert forall|a: int, b: int|
                        0 <= a < b < b2.len() implies b2[a] != b2[b] by {
                        if b < base.len() {
                            assert(b2[a] == base[a] && b2[b] == base[b]);
                        } else {
                            assert(b2[b] == extra[0]);
                            assert(b2[a] == base[a]);
                            assert(base.contains(base[a]));
                        }
                    }
                }
            }
        }
        assert forall|x: Seq<char>|
            #[trigger] merge_flags_spec(base, extra).contains(x) <==> base.contains(x)
                || extra.contains(x) by {
            assert(merge_flags_spec(base, extra) == merge_flags_spec(b2, extra.skip(1)));
            if base.contains(x) {
                let k = choose|k: int| 0 <= k < base.len() && base[k] == x;
                assert(b2[k] == x);
                assert(b2.contains(x));
            }
            if extra.contains(x) {
                let k = choose|k: int| 0 <= k < extra.len() && extra[k] == x;
                if k == 0 {
                    if base.contains(x) {
                        // already counted through base
                    } else {
                        assert(b2[base.len() as int] == x);
                        assert(b2.contains(x));
                    }
                } else {
                    assert(extra.skip(1)[k - 1] == x);
                    assert(extra.skip(1).contains(x));
                }
            }
            if merge_flags_spec(b2, extra.skip(1)).contains(x) {
                if b2.contains(x) {
                    let k = choose|k: int| 0 <= k < b2.len() && b2[k] == x;
                    if k < base.len() {
                        assert(base[k] == x);
                        assert(base.contains(x));
                    } else {
                        assert(x == extra[0]);
                        assert(extra.contains(x));
                    }
                } else {
                    assert(extra.skip(1).contains(x));
                    let k = choose|k: int| 0 <= k < extra.skip(1).len() && extra.skip(1)[k] == x;
                    assert(extra[k + 1] == x);
                    assert(extra.contains(x));
                }
            }
        }
        assert(base.is_prefix_of(b2));
        assert(b2.is_prefix_of(merge_flags_spec(b2, extra.skip(1))));
        assert(base.is_prefix_of(merge_flags_spec(base, extra))) by {
            assert(merge_flags_spec(base, extra) == merge_flags_spec(b2, extra.skip(1)));
            assert(forall|k: int|
                0 <= k < base.len() ==> #[trigger] merge_flags_spec(b2, extra.skip(1))[k] == base[k]);
        }
    }
}

/// Clones a list of strings element for element.
pub fn clone_strings(v: &Vec<String>) -> (r: Vec<String>)
    ensures
        r@ == v@,
{
    let mut out: Vec<String> = Vec::new();
    let mut i: usize = 0;
    while i < v.len()
        invariant
            0 <= i <= v@.len(),
            out@ == v@.take(i as int),
        decreases v@.len() - i,
    {
        out.push(v[i].clone());
        proof {
            assert(out@ =~= v@.take(i as int + 1));
        }
        i = i + 1;
    }
    proof {
        assert(v@.take(v@.len() as int) =~= v@);
    }
    out
}

/// Clones an optional string.
pub fn clone_opt_string(v: &Option<String>) -> (r: Option<String>)
    ensures
        r == *v,
{
    match v {
        Some(s) => Some(s.clone()),
        None => None,
    }
}

} // verus!

verus! {

/// The running result of reading the build tool's tagged output:
/// whether the cursor is inside a marker block, and every entry
/// collected so far, in encounter order.
pub ghost struct GradleAcc {
    pub in_section: bool,
    pub source_roots: Seq<Seq<char>>,
    pub classpath: Seq<Seq<char>>,
    pub compiler_flags: Seq<Seq<char>>,
    pub kotlin_version: Option<Seq<char>>,
    pub has_compose: bool,
    pub generated_source_roots: Seq<Seq<char>>,
}

pub open spec fn gradle_acc_init() -> GradleAcc {
    GradleAcc {
        in_section: false,
        source_roots: Seq::empty(),
        classpath: Seq::empty(),
        compiler_flags: Seq::empty(),
        kotlin_version: None,
        has_compose: false,
        generated_source_roots: Seq::empty(),
    }
}

/// What one trimmed line of build-tool output contributes.  The
/// markers open and close a block; outside a block every line is
/// ignored; inside, each recognized `KEY=` prefix appends its value
/// (a compiler flag seen before is dropped, the version is replaced,
/// compose is a flag), error keys are only reported elsewhere, and
/// unknown lines are skipped.
pub open spec fn gradle_step(l: Seq<char>, a: GradleAcc) -> GradleAcc {
    if l == "---KOTLIN-ANALYZER-START---"@ {
        GradleAcc { in_section: true, ..a }
    } else if l == "---KOTLIN-ANALYZER-END---"@ {
        GradleAcc { in_section: false, ..a }
    } else if !a.in_section {
        a
    } else if starts_with(l, "SOURCE_ROOT="@) {
        GradleAcc { source_roots: a.source_roots.push(l.skip("SOURCE_ROOT="@.len() as int)), ..a }
    } else if starts_with(l, "CLASSPATH="@) {
        GradleAcc { classpath: a.classpath.push(l.skip("CLASSPATH="@.len() as int)), ..a }
    } else if starts_with(l, "CLASSPATH_ERROR="@) {
        a
    } else if starts_with(l, "COMPILER_FLAG="@) {
        if a.compiler_flags.contains(l.skip("COMPILER_FLAG="@.len() as int)) {
            a
        } else {
            GradleAcc {
                compiler_flags: a.compiler_flags.push(l.skip("COMPILER_FLAG="@.len() as int)),
                ..a
            }
        }
    } else if starts_with(l, "KOTLIN_VERSION="@) {
        GradleAcc { kotlin_version: Some(l.skip("KOTLIN_VERSION="@.len() as int)), ..a }
    } else if starts_with(l, "KOTLIN_VERSION_ERROR="@) {
        a
    } else if l == "HAS_COMPOSE=true"@ {
        GradleAcc { has_compose: true, ..a }
    } else if starts_with(l, "GENERATED_SOURCE_ROOT="@) {
        GradleAcc {
            generated_source_roots: a.generated_source_roots.push(
                l.skip("GENERATED_SOURCE_ROOT="@.len() as int),
            ),
            ..a
        }
    } else {
        a
    }
}

/// Reads the output line by line (lines split at newlines, each
/// trimmed) and folds `gradle_step` over them.
pub open spec fn gradle_parse(s: Seq<char>, pos: int, a: GradleAcc) -> GradleAcc
    decreases s.len() - pos when 0 <= pos <= s.len() via gradle_parse_dec
{
    if pos >= s.len() {
        a
    } else {
        let nl = find_char(s, pos, '\n');
        let a2 = gradle_step(trim_spec(s.subrange(pos, nl)), a);
        if nl >= s.len() {
            a2
        } else {
            gradle_parse(s, nl + 1, a2)
        }
    }
}

#[via_fn]
proof fn gradle_parse_dec(s: Seq<char>, pos: int, a: GradleAcc) {
    if 0 <= pos < s.len() {
        lemma_find_char_bounds(s, pos, '\n');
    }
}

pub open spec fn opt_str_view(o: Option<String>) -> Option<Seq<char>> {
    match o {
        Some(s) => Some(s@),
        None => None,
    }
}

pub open spec fn gradle_acc_of(
    in_section: bool,
    source_roots: Vec<String>,
    classpath: Vec<String>,
    compiler_flags: Vec<String>,
    kotlin_version: Option<String>,
    has_compose: bool,
    generated: Vec<String>,
) -> GradleAcc {
    GradleAcc {
        in_section,
        source_roots: source_roots.deep_view(),
        classpath: classpath.deep_view(),
        compiler_flags: compiler_flags.deep_view(),
        kotlin_version: opt_str_view(kotlin_version),
        has_compose,
        generated_source_roots: generated.deep_view(),
    }
}

/// Parses the tagged output of the build tool into a project model.
/// The model's entries are exactly the fold of the recognized lines,
/// compiler flags duplicate-free across blocks; configuration flags
/// are merged in after the build tool's, again skipping duplicates;
/// the JDK home comes from the configuration.  Parsing itself never
/// fails.
pub fn parse_gradle_output(output: &str, root: &str, config: &Config) -> (r: Result<
    ProjectModel,
    ProjectError,
>)
    requires
        output@.len() < usize::MAX,
    ensures
        ({
            let acc = gradle_parse(output@, 0, gradle_acc_init());
            r matches Ok(m) && m.project_root@ == root@ && m.build_system == BuildSystem::Gradle
                && m.source_roots.deep_view() == acc.source_roots && m.classpath.deep_view()
                == acc.classpath && m.compiler_flags.deep_view() == merge_flags_spec(
                acc.compiler_flags,
                config.compiler_flags.deep_view(),
            ) && opt_str_view(m.kotlin_version) == acc.kotlin_version && m.jdk_home
                == config.java_home && m.has_compose == acc.has_compose
                && m.generated_source_roots.deep_view() == acc.generated_source_roots
        }),
{
    let len = output.unicode_len();
    let mut pos: usize = 0;
    let mut in_section = false;
    let mut source_roots: Vec<String> = Vec::new();
    let mut classpath: Vec<String> = Vec::new();
    let mut compiler_flags: Vec<String> = Vec::new();
    let mut kotlin_version: Option<String> = None;
    let mut has_compose = false;
    let mut generated: Vec<String> = Vec::new();
    proof {
        assert(source_roots.deep_view() =~= Seq::<Seq<char>>::empty());
        assert(classpath.deep_view() =~= Seq::<Seq<char>>::empty());
        assert(compiler_flags.deep_view() =~= Seq::<Seq<char>>::empty());
        assert(generated.deep_view() =~= Seq::<Seq<char>>::empty());
    }
    while pos < len
        invariant
            0 <= pos <= len,
            len == output@.len(),
            gradle_parse(output@, 0, gradle_acc_init()) == gradle_parse(
                output@,
                pos as int,
                gradle_acc_of(
                    in_section,
                    source_roots,
                    classpath,
                    compiler_flags,
                    kotlin_version,
                    has_compose,
                    generated,
                ),
            ),
        decreases len - pos,
    {
        let ghost a_pre = gradle_acc_of(
            in_section,
            source_roots,
            classpath,
            compiler_flags,
            kotlin_version,
            has_compose,
            generated,
        );
        let mut j = pos;
        while j < len && output.get_char(j) != '\n'
            invariant
                pos <= j <= len,
                len == output@.len(),
                find_char(output@, pos as int, '\n') == find_char(output@, j as int, '\n'),
            decreases len - j,
        {
            j = j + 1;
        }
        proof {
            assert(find_char(output@, pos as int, '\n') == j);
        }
        let line = output.substring_char(pos, j);
        let t = trim(line);
        proof {
            assert(t@ == trim_spec(output@.subrange(pos as int, j as int)));
        }
        if str_eq(t, "---KOTLIN-ANALYZER-START---") {
            in_section = true;
        } else if str_eq(t, "---KOTLIN-ANALYZER-END---") {
            in_section = false;
        } else if !in_section {
        } else if strip_prefix(t, "SOURCE_ROOT=").is_some() {
            let rest = strip_prefix(t, "SOURCE_ROOT=").unwrap();
            let ghost pre = source_roots.deep_view();
            source_roots.push(rest.to_owned());
            proof {
                assert(source_roots.deep_view() =~= pre.push(rest@));
            }
        } else if strip_prefix(t, "CLASSPATH=").is_some() {
            let rest = strip_prefix(t, "CLASSPATH=").unwrap();
            let ghost pre = classpath.deep_view();
            classpath.push(rest.to_owned());
            proof {
                assert(classpath.deep_view() =~= pre.push(rest@));
            }
        } else if strip_prefix(t, "CLASSPATH_ERROR=").is_some() {
            // extraction errors are reported by the caller's logging
        } else if strip_prefix(t, "COMPILER_FLAG=").is_some() {
            let rest = strip_prefix(t, "COMPILER_FLAG=").unwrap();
            if !vec_contains_str(&compiler_flags, rest) {
                let ghost pre = compiler_flags.deep_view();
                compiler_flags.push(rest.to_owned());
                proof {
                    assert(compiler_flags.deep_view() =~= pre.push(rest@));
                }
            }
        } else if strip_prefix(t, "KOTLIN_VERSION=").is_some() {
            let rest = strip_prefix(t, "KOTLIN_VERSION=").unwrap();
            kotlin_version = Some(rest.to_owned());
        } else if strip_prefix(t, "KOTLIN_VERSION_ERROR=").is_some() {
            // reported by the caller's logging
        } else if str_eq(t, "HAS_COMPOSE=true") {
            has_compose = true;
        } else if strip_prefix(t, "GENERATED_SOURCE_ROOT=").is_some() {
            let rest = strip_prefix(t, "GENERATED_SOURCE_ROOT=").unwrap();
            let ghost pre = generated.deep_view();
            generated.push(rest.to_owned());
            proof {
                assert(generated.deep_view() =~= pre.push(rest@));
            }
        }
        proof {
            let a_post = gradle_acc_of(
                in_section,
                source_roots,
                classpath,
                compiler_flags,
                kotlin_version,
                has_compose,
                generated,
            );
            assert(a_post == gradle_step(t@, a_pre));
        }
        if j >= len {
            pos = len;
        } else {
            pos = j + 1;
        }
    }
    let merged = merge_flags(compiler_flags, &config.compiler_flags);
    let model = ProjectModel {
        project_root: root.to_owned(),
        build_system: BuildSystem::Gradle,
        source_roots,
        classpath,
        compiler_flags: merged,
        kotlin_version,
        jdk_home: clone_opt_string(&config.java_home),
        has_compose,
        generated_source_roots: generated,
    };
    Ok(model)
}

/// Entries accumulate in encounter order: however much more output
/// follows, what earlier lines collected stays in place as a prefix,
/// so the model holds the union of all blocks' entries in the order
/// they appeared.
pub proof fn lemma_gradle_entries_extend(s: Seq<char>, pos: int, a: GradleAcc)
    requires
        0 <= pos <= s.len(),
    ensures
        a.source_roots.is_prefix_of(gradle_parse(s, pos, a).source_roots),
        a.classpath.is_prefix_of(gradle_parse(s, pos, a).classpath),
        a.compiler_flags.is_prefix_of(gradle_parse(s, pos, a).compiler_flags),
        a.generated_source_roots.is_prefix_of(gradle_parse(s, pos, a).generated_source_roots),
    decreases s.len() - pos,
{
    lemma_acc_prefix_refl(a);
    if pos < s.len() {
        lemma_find_char_bounds(s, pos, '\n');
        let nl = find_char(s, pos, '\n');
        let a2 = gradle_step(trim_spec(s.subrange(pos, nl)), a);
        lemma_step_extends(trim_spec(s.subrange(pos, nl)), a);
        if nl < s.len() {
            lemma_gradle_entries_extend(s, nl + 1, a2);
            lemma_prefix_trans(a.source_roots, a2.source_roots, gradle_parse(s, pos, a).source_roots);
            lemma_prefix_trans(a.classpath, a2.classpath, gradle_parse(s, pos, a).classpath);
            lemma_prefix_trans(
                a.compiler_flags,
                a2.compiler_flags,
                gradle_parse(s, pos, a).compiler_flags,
            );
            lemma_prefix_trans(
                a.generated_source_roots,
                a2.generated_source_roots,
                gradle_parse(s, pos, a).generated_source_roots,
            );
        }
    }
}

proof fn lemma_acc_prefix_refl(a: GradleAcc)
    ensures
        a.source_roots.is_prefix_of(a.source_roots),
        a.classpath.is_prefix_of(a.classpath),
        a.compiler_flags.is_prefix_of(a.compiler_flags),
        a.generated_source_roots.is_prefix_of(a.generated_source_roots),
{
    assert(a.source_roots =~= a.source_roots.subrange(0, a.source_roots.len() as int));
    assert(a.classpath =~= a.classpath.subrange(0, a.classpath.len() as int));
    assert(a.compiler_flags =~= a.compiler_flags.subrange(0, a.compiler_flags.len() as int));
    assert(a.generated_source_roots =~= a.generated_source_roots.subrange(
        0,
        a.generated_source_roots.len() as int,
    ));
}

proof fn lemma_push_prefix(s: Seq<Seq<char>>, x: Seq<char>)
    ensures
        s.is_prefix_of(s.push(x)),
{
    assert(s =~= s.push(x).subrange(0, s.len() as int));
}

proof fn lemma_step_extends(l: Seq<char>, a: GradleAcc)
    ensures
        a.source_roots.is_prefix_of(gradle_step(l, a).source_roots),
        a.classpath.is_prefix_of(gradle_step(l, a).classpath),
        a.compiler_flags.is_prefix_of(gradle_step(l, a).compiler_flags),
        a.generated_source_roots.is_prefix_of(gradle_step(l, a).generated_source_roots),
{
    lemma_acc_prefix_refl(a);
    lemma_push_prefix(a.source_roots, l.skip("SOURCE_ROOT="@.len() as int));
    lemma_push_prefix(a.classpath, l.skip("CLASSPATH="@.len() as int));
    lemma_push_prefix(a.compiler_flags, l.skip("COMPILER_FLAG="@.len() as int));
    lemma_push_prefix(a.generated_source_roots, l.skip("GENERATED_SOURCE_ROOT="@.len() as int));
}

proof fn lemma_prefix_trans(a: Seq<Seq<char>>, b: Seq<Seq<char>>, c: Seq<Seq<char>>)
    requires
        a.is_prefix_of(b),
        b.is_prefix_of(c),
    ensures
        a.is_prefix_of(c),
{
    assert(a =~= c.subrange(0, a.len() as int)) by {
        assert(forall|k: int| 0 <= k < a.len() ==> a[k] == b.subrange(0, a.len() as int)[k]);
        assert(forall|k: int| 0 <= k < b.len() ==> b[k] == c.subrange(0, b.len() as int)[k]);
    }
}

/// The collected compiler flags hold no duplicates: a flag seen
/// again, in the same block or a later one, is dropped, so the model
/// carries the duplicate-free union of all blocks' flags in
/// first-seen order.
pub proof fn lemma_gradle_flags_unique(s: Seq<char>, pos: int, a: GradleAcc)
    requires
        0 <= pos <= s.len(),
        a.compiler_flags.no_duplicates(),
    ensures
        gradle_parse(s, pos, a).compiler_flags.no_duplicates(),
    decreases s.len() - pos,
{
    if pos < s.len() {
        lemma_find_char_bounds(s, pos, '\n');
        let nl = find_char(s, pos, '\n');
        let a2 = gradle_step(trim_spec(s.subrange(pos, nl)), a);
        lemma_step_keeps_flags_unique(trim_spec(s.subrange(pos, nl)), a);
        if nl < s.len() {
            lemma_gradle_flags_unique(s, nl + 1, a2);
        }
    }
}

proof fn lemma_step_keeps_flags_unique(l: Seq<char>, a: GradleAcc)
    requires
        a.compiler_flags.no_duplicates(),
    ensures
        gradle_step(l, a).compiler_flags.no_duplicates(),
{
    let f = a.compiler_flags;
    let x = l.skip("COMPILER_FLAG="@.len() as int);
    if !f.contains(x) {
        assert forall|i: int, j: int| 0 <= i < j < f.push(x).len() implies f.push(x)[i] != f.push(
            x,
        )[j] by {
            if j < f.len() {
                assert(f.push(x)[i] == f[i] && f.push(x)[j] == f[j]);
            } else {
                assert(f.push(x)[j] == x);
                assert(f.push(x)[i] == f[i]);
                assert(f.contains(f[i]));
            }
        }
    }
}

/// Resolving the same tagged output against the same configuration
/// twice yields the same model fields: the parse and the flag merge
/// are functions of the text and the flags alone, so repeated
/// resolution is idempotent.
pub proof fn lemma_resolution_deterministic(output: Seq<char>, config_flags: Seq<Seq<char>>)
    ensures
        ({
            let a1 = gradle_parse(output, 0, gradle_acc_init());
            let a2 = gradle_parse(output, 0, gradle_acc_init());
            a1 == a2 && merge_flags_spec(a1.compiler_flags, config_flags) == merge_flags_spec(
                a2.compiler_flags,
                config_flags,
            )
        }),
{
}

} // verus!

verus! {

/// Maven's classpath output separators: line breaks and the path
/// separator.
pub open spec fn is_sep(c: char) -> bool {
    c == '\n' || c == '\r' || c == ':'
}

pub open spec fn find_sep(s: Seq<char>, pos: int) -> int
    decreases s.len() - pos when 0 <= pos <= s.len()
{
    if pos >= s.len() {
        s.len() as int
    } else if is_sep(s[pos]) {
        pos
    } else {
        find_sep(s, pos + 1)
    }
}

proof fn lemma_find_sep_bounds(s: Seq<char>, pos: int)
    requires
        0 <= pos <= s.len(),
    ensures
        pos <= find_sep(s, pos) <= s.len(),
        forall|k: int| pos <= k < find_sep(s, pos) ==> !is_sep(s[k]),
        find_sep(s, pos) < s.len() ==> is_sep(s[find_sep(s, pos)]),
    decreases s.len() - pos,
{
    if pos < s.len() && !is_sep(s[pos]) {
        lemma_find_sep_bounds(s, pos + 1);
    }
}

/// Splits the build tool's classpath output at separators and drops
/// empty pieces.
pub open spec fn maven_parse(s: Seq<char>, pos: int, acc: Seq<Seq<char>>) -> Seq<Seq<char>>
    decreases s.len() - pos when 0 <= pos <= s.len() via maven_parse_dec
{
    if pos >= s.len() {
        acc
    } else {
        let e = find_sep(s, pos);
        let tok = s.subrange(pos, e);
        let acc2 = if tok.len() == 0 {
            acc
        } else {
            acc.push(tok)
        };
        if e >= s.len() {
            acc2
        } else {
            maven_parse(s, e + 1, acc2)
        }
    }
}

#[via_fn]
proof fn maven_parse_dec(s: Seq<char>, pos: int, acc: Seq<Seq<char>>) {
    if 0 <= pos < s.len() {
        lemma_find_sep_bounds(s, pos);
    }
}

fn is_sep_char(c: char) -> (r: bool)
    ensures
        r == is_sep(c),
{
    c == '\n' || c == '\r' || c == ':'
}

/// Reads the classpath entries out of the build tool's output: the
/// non-empty pieces between separators, in order.  Whether each entry
/// exists on disk is the caller's concern.
pub fn parse_maven_classpath(stdout: &str) -> (r: Vec<String>)
    requires
        stdout@.len() < usize::MAX,
    ensures
        r.deep_view() == maven_parse(stdout@, 0, Seq::empty()),
{
    let len = stdout.unicode_len();
    let mut pos: usize = 0;
    let mut out: Vec<String> = Vec::new();
    proof {
        assert(out.deep_view() =~= Seq::<Seq<char>>::empty());
    }
    while pos < len
        invariant
            0 <= pos <= len,
            len == stdout@.len(),
            maven_parse(stdout@, 0, Seq::empty()) == maven_parse(
                stdout@,
                pos as int,
                out.deep_view(),
            ),
        decreases len - pos,
    {
        let ghost pre = out.deep_view();
        let mut e = pos;
        while e < len && !is_sep_char(stdout.get_char(e))
            invariant
                pos <= e <= len,
                len == stdout@.len(),
                find_sep(stdout@, pos as int) == find_sep(stdout@, e as int),
            decreases len - e,
        {
            e = e + 1;
        }
        proof {
            assert(find_sep(stdout@, pos as int) == e);
        }
        if e > pos {
            let tok = stdout.substring_char(pos, e);
            out.push(tok.to_owned());
            proof {
                assert(out.deep_view() =~= pre.push(stdout@.subrange(pos as int, e as int)));
            }
        } else {
            proof {
                assert(stdout@.subrange(pos as int, e as int).len() == 0);
            }
        }
        if e >= len {
            pos = len;
        } else {
            pos = e + 1;
        }
    }
    out
}

/// Keeps `paths[i]` exactly when `present[i]`, in order.
pub open spec fn filter_present_spec(
    ps: Seq<Seq<char>>,
    present: Seq<bool>,
    i: int,
    acc: Seq<Seq<char>>,
) -> Seq<Seq<char>>
    decreases ps.len() - i when 0 <= i <= ps.len()
{
    if i >= ps.len() {
        acc
    } else {
        filter_present_spec(
            ps,
            present,
            i + 1,
            if i < present.len() && present[i] {
                acc.push(ps[i])
            } else {
                acc
            },
        )
    }
}

/// Keeps the paths whose `present` flag is set; the caller fills the
/// flags in from the file system.
pub fn filter_existing(paths: Vec<String>, present: &Vec<bool>) -> (r: Vec<String>)
    requires
        paths@.len() == present@.len(),
    ensures
        r.deep_view() == filter_present_spec(paths.deep_view(), present@, 0, Seq::empty()),
{
    let mut out: Vec<String> = Vec::new();
    let mut i: usize = 0;
    proof {
        assert(out.deep_view() =~= Seq::<Seq<char>>::empty());
    }
    while i < paths.len()
        invariant
            0 <= i <= paths@.len(),
            paths@.len() == present@.len(),
            filter_present_spec(paths.deep_view(), present@, 0, Seq::empty())
                == filter_present_spec(paths.deep_view(), present@, i as int, out.deep_view()),
        decreases paths@.len() - i,
    {
        let ghost pre = out.deep_view();
        if present[i] {
            out.push(paths[i].clone());
            proof {
                assert(out.deep_view() =~= pre.push(paths.deep_view()[i as int]));
            }
        }
        i = i + 1;
    }
    out
}

/// The conventional source directories probed when no build system
/// is present, relative to the root.
pub open spec fn kotlin_source_candidates_spec(root: Seq<char>) -> Seq<Seq<char>> {
    seq![
        root + "/"@ + "src/main/kotlin"@,
        root + "/"@ + "src/main/java"@,
        root + "/"@ + "src"@,
    ]
}

/// The candidate source directories under `root`, in probe order.
pub fn kotlin_source_candidates(root: &str) -> (r: Vec<String>)
    ensures
        r.deep_view() == kotlin_source_candidates_spec(root@),
{
    let mut out: Vec<String> = Vec::new();
    out.push(path_join(root, "src/main/kotlin"));
    out.push(path_join(root, "src/main/java"));
    out.push(path_join(root, "src"));
    proof {
        assert(out.deep_view() =~= kotlin_source_candidates_spec(root@));
    }
    out
}

/// The source roots of a project without a build system: the
/// conventional directories that exist, `present` holding one flag
/// per candidate.
pub fn find_kotlin_source_roots(root: &str, present: &Vec<bool>) -> (r: Vec<String>)
    requires
        present@.len() == 3,
    ensures
        r.deep_view() == filter_present_spec(
            kotlin_source_candidates_spec(root@),
            present@,
            0,
            Seq::empty(),
        ),
{
    let candidates = kotlin_source_candidates(root);
    filter_existing(candidates, present)
}

/// The model of a project without a build system: the existing
/// conventional source directories and the configuration's flags,
/// nothing else.
pub fn build_stdlib_model(root: &str, present: &Vec<bool>, config: &Config) -> (m: ProjectModel)
    requires
        present@.len() == 3,
    ensures
        m.project_root@ == root@,
        m.build_system == BuildSystem::Absent,
        m.source_roots.deep_view() == filter_present_spec(
            kotlin_source_candidates_spec(root@),
            present@,
            0,
            Seq::empty(),
        ),
        m.classpath@ == Seq::<String>::empty(),
        m.compiler_flags@ == config.compiler_flags@,
        m.kotlin_version is None,
        m.jdk_home is None,
        !m.has_compose,
        m.generated_source_roots@ == Seq::<String>::empty(),
{
    let mut m = ProjectModel::no_build_system(root.to_owned());
    m.source_roots = find_kotlin_source_roots(root, present);
    m.compiler_flags = clone_strings(&config.compiler_flags);
    m
}

/// The model of a maven project: the extracted classpath, the two
/// conventional source roots that exist, and the configuration's
/// flags and JDK home.
pub fn build_maven_model(
    root: &str,
    classpath: Vec<String>,
    kotlin_dir_exists: bool,
    java_dir_exists: bool,
    config: &Config,
) -> (m: ProjectModel)
    ensures
        m.project_root@ == root@,
        m.build_system == BuildSystem::Maven,
        m.source_roots.deep_view() == (if kotlin_dir_exists {
            seq![root@ + "/"@ + "src/main/kotlin"@]
        } else {
            Seq::<Seq<char>>::empty()
        }) + (if java_dir_exists {
            seq![root@ + "/"@ + "src/main/java"@]
        } else {
            Seq::<Seq<char>>::empty()
        }),
        m.classpath == classpath,
        m.compiler_flags@ == config.compiler_flags@,
        m.kotlin_version is None,
        m.jdk_home == config.java_home,
        !m.has_compose,
        m.generated_source_roots@ == Seq::<String>::empty(),
{
    let mut source_roots: Vec<String> = Vec::new();
    if kotlin_dir_exists {
        source_roots.push(path_join(root, "src/main/kotlin"));
    }
    if java_dir_exists {
        source_roots.push(path_join(root, "src/main/java"));
    }
    proof {
        assert(source_roots.deep_view() =~= (if kotlin_dir_exists {
            seq![root@ + "/"@ + "src/main/kotlin"@]
        } else {
            Seq::<Seq<char>>::empty()
        }) + (if java_dir_exists {
            seq![root@ + "/"@ + "src/main/java"@]
        } else {
            Seq::<Seq<char>>::empty()
        }));
    }
    ProjectModel {
        project_root: root.to_owned(),
        build_system: BuildSystem::Maven,
        source_roots,
        classpath,
        compiler_flags: clone_strings(&config.compiler_flags),
        kotlin_version: None,
        jdk_home: clone_opt_string(&config.java_home),
        has_compose: false,
        generated_source_roots: Vec::new(),
    }
}

/// A path as the manual configuration resolves it: absolute paths
/// stand, relative ones are joined onto the root.
pub open spec fn abs_spec(root: Seq<char>, p: Seq<char>) -> Seq<char> {
    if p.len() > 0 && p[0] == '/' {
        p
    } else {
        root + "/"@ + p
    }
}

/// Resolves each manual-configuration path against the root.
pub fn absolutize_paths(root: &str, paths: &Vec<String>) -> (r: Vec<String>)
    ensures
        r@.len() == paths@.len(),
        forall|k: int| 0 <= k < r@.len() ==> (#[trigger] r@[k])@ == abs_spec(root@, paths@[k]@),
{
    let mut out: Vec<String> = Vec::new();
    let mut i: usize = 0;
    while i < paths.len()
        invariant
            0 <= i <= paths@.len(),
            out@.len() == i,
            forall|k: int| 0 <= k < i ==> (#[trigger] out@[k])@ == abs_spec(root@, paths@[k]@),
        decreases paths@.len() - i,
    {
        let p = &paths[i];
        let pl = p.as_str().unicode_len();
        if pl > 0 && p.as_str().get_char(0) == '/' {
            out.push(p.clone());
        } else {
            out.push(path_join(root, p.as_str()));
        }
        i = i + 1;
    }
    out
}

/// The model a manual configuration file yields: its own roots,
/// classpath, flags (merged with the configuration's), version and
/// JDK home, the latter falling back to the configuration's.
pub fn build_manual_model(
    root: &str,
    source_roots: Vec<String>,
    classpath: Vec<String>,
    manual_flags: Vec<String>,
    kotlin_version: Option<String>,
    manual_jdk: Option<String>,
    config: &Config,
) -> (m: ProjectModel)
    ensures
        m.project_root@ == root@,
        m.build_system == BuildSystem::Absent,
        m.source_roots == source_roots,
        m.classpath == classpath,
        m.compiler_flags.deep_view() == merge_flags_spec(
            manual_flags.deep_view(),
            config.compiler_flags.deep_view(),
        ),
        m.kotlin_version == kotlin_version,
        m.jdk_home == (if manual_jdk is Some {
            manual_jdk
        } else {
            config.java_home
        }),
        !m.has_compose,
        m.generated_source_roots@ == Seq::<String>::empty(),
{
    let jdk_home = match manual_jdk {
        Some(h) => Some(h),
        None => clone_opt_string(&config.java_home),
    };
    ProjectModel {
        project_root: root.to_owned(),
        build_system: BuildSystem::Absent,
        source_roots,
        classpath,
        compiler_flags: merge_flags(manual_flags, &config.compiler_flags),
        kotlin_version,
        jdk_home,
        has_compose: false,
        generated_source_roots: Vec::new(),
    }
}

/// The gradle launcher for a root: its own wrapper when present
/// (named per platform), else the tool from the search path.
pub fn find_gradle_wrapper(root: &str, wrapper_exists: bool, windows: bool) -> (r: String)
    ensures
        wrapper_exists && windows ==> r@ == root@ + "/"@ + "gradlew.bat"@,
        wrapper_exists && !windows ==> r@ == root@ + "/"@ + "gradlew"@,
        !wrapper_exists ==> r@ == "gradle"@,
{
    if wrapper_exists {
        if windows {
            path_join(root, "gradlew.bat")
        } else {
            path_join(root, "gradlew")
        }
    } else {
        String::from_str("gradle")
    }
}

/// The first `n` characters of `s`, or all of it when shorter.
pub open spec fn take_chars(s: Seq<char>, n: int) -> Seq<char> {
    if s.len() <= n {
        s
    } else {
        s.take(n)
    }
}

/// At most the first `n` characters of `s`.
pub fn truncate_chars<'a>(s: &'a str, n: usize) -> (r: &'a str)
    ensures
        r@ == take_chars(s@, n as int),
{
    let l = s.unicode_len();
    if l <= n {
        proof {
            assert(s@.take(s@.len() as int) =~= s@);
        }
        s
    } else {
        s.substring_char(0, n)
    }
}

/// The error for a build-tool run that exited with a failure: the
/// exit status and the head of its error stream.
pub fn gradle_failure(status: &str, stderr: &str) -> (e: ProjectError)
    ensures
        e matches ProjectError::GradleFailed(m) && m@ == "Gradle exited with "@ + status@ + ": "@
            + take_chars(stderr@, 500),
{
    let mut m = String::from_str("Gradle exited with ");
    m.append(status);
    m.append(": ");
    m.append(truncate_chars(stderr, 500));
    proof {
        assert(m@ =~= "Gradle exited with "@ + status@ + ": "@ + take_chars(stderr@, 500));
    }
    ProjectError::GradleFailed(m)
}

/// The error for a failed classpath extraction run: the exit status
/// and the head of its error stream.
pub fn maven_failure(status: &str, stderr: &str) -> (e: ProjectError)
    ensures
        e matches ProjectError::ClasspathExtraction(m) && m@ == "Maven exited with "@ + status@
            + ": "@ + take_chars(stderr@, 500),
{
    let mut m = String::from_str("Maven exited with ");
    m.append(status);
    m.append(": ");
    m.append(truncate_chars(stderr, 500));
    proof {
        assert(m@ =~= "Maven exited with "@ + status@ + ": "@ + take_chars(stderr@, 500));
    }
    ProjectError::ClasspathExtraction(m)
}

} // verus!
