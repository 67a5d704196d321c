//! Where the bundled ADB tool is.

use vstd::prelude::*;

use crate::text;
use crate::text::same_str;

verus! {

/// The port of the ADB server.
pub const ADB_SERVER_PORT: u16 = 5037;

/// The operating systems for which the tool is bundled.
#[derive(Debug, Clone, Copy, PartialEq, Eq, Structural)]
pub enum HostOs {
    /// Windows.
    Windows,
    /// macOS.
    Mac,
    /// Linux.
    Linux,
}

/// The directory of the tool for an operating system.
pub open spec fn platform_dir(os: HostOs) -> &'static str {
    match os {
        HostOs::Windows => "win",
        HostOs::Mac => "mac",
        HostOs::Linux => "linux",
    }
}

/// The name of the tool for an operating system.
pub open spec fn binary_name(os: HostOs) -> &'static str {
    match os {
        HostOs::Windows => "adb.exe",
        _ => "adb",
    }
}

/// A path on the host, taken apart.
#[derive(Debug)]
pub struct HostPath {
    /// What an absolute path starts with: `/`, or a drive. Empty for a relative path.
    pub root: String,
    /// The names below it.
    pub parts: Vec<String>,
}

/// A path, abstractly.
#[verifier::ext_equal]
pub struct PathView {
    /// What an absolute path starts with.
    pub root: Seq<char>,
    /// The names below it.
    pub parts: Seq<Seq<char>>,
}

impl PathView {
    /// The path that has further names below this one.
    pub open spec fn join(self, parts: Seq<Seq<char>>) -> PathView {
        PathView { root: self.root, parts: self.parts + parts }
    }

    /// The path of the given number of names of this one.
    pub open spec fn ancestor(self, n: int) -> PathView {
        PathView { root: self.root, parts: self.parts.take(n) }
    }
}

impl View for HostPath {
    type V = PathView;

    open spec fn view(&self) -> PathView {
        PathView { root: self.root@, parts: text::views(self.parts@) }
    }
}

/// The names on the way from the root of the application to the tool.
pub open spec fn relative_parts(os: HostOs) -> Seq<Seq<char>> {
    seq!["adb"@, platform_dir(os)@, binary_name(os)@]
}

/// The directory of the tool for an operating system.
pub fn adb_platform_dir(os: HostOs) -> (r: &'static str)
    ensures
        r@ == platform_dir(os)@,
{
    match os {
        HostOs::Windows => "win",
        HostOs::Mac => "mac",
        HostOs::Linux => "linux",
    }
}

/// The name of the tool for an operating system.
pub fn adb_binary_name(os: HostOs) -> (r: &'static str)
    ensures
        r@ == binary_name(os)@,
{
    match os {
        HostOs::Windows => "adb.exe",
        _ => "adb",
    }
}

/// The path of the tool from the root of the application.
pub fn bundled_adb_relative_path(os: HostOs) -> (r: HostPath)
    ensures
        r@ == (PathView { root: Seq::empty(), parts: relative_parts(os) }),
{
    let mut parts: Vec<String> = Vec::new();
    parts.push(String::from_str("adb"));
    parts.push(String::from_str(adb_platform_dir(os)));
    parts.push(String::from_str(adb_binary_name(os)));
    assert(text::views(parts@) =~= relative_parts(os));
    HostPath { root: String::new(), parts }
}

// ---------------------------------------------------------------------------
// Candidate roots
// ---------------------------------------------------------------------------

/// A path of so many names, and all those above it, added one after the other, the longest
/// first, each only if it is not there already.
pub open spec fn with_ancestors(roots: Seq<PathView>, path: PathView, n: nat) -> Seq<PathView>
    decreases n,
{
    let next = path.ancestor(n as int);
    let longer = if roots.contains(next) {
        roots
    } else {
        roots.push(next)
    };
    if n == 0 {
        longer
    } else {
        with_ancestors(longer, path, (n - 1) as nat)
    }
}

/// A path and all those above it, added as far as they are not there already.
pub open spec fn with_path(roots: Seq<PathView>, path: PathView) -> Seq<PathView> {
    with_ancestors(roots, path, path.parts.len())
}

/// The roots under which the tool is looked for: the directory of the program and those above
/// it, the working directory and those above it, and the source directory.
pub open spec fn candidates(
    exe_dir: Option<PathView>,
    current_dir: Option<PathView>,
    source_root: PathView,
) -> Seq<PathView> {
    let first = match exe_dir {
        Some(dir) => with_path(Seq::empty(), dir),
        None => Seq::empty(),
    };
    let second = match current_dir {
        Some(dir) => with_path(first, dir),
        None => first,
    };
    second.push(source_root)
}

/// A path, where there is one.
pub open spec fn optional_path(path: Option<HostPath>) -> Option<PathView> {
    match path {
        Some(path) => Some(path@),
        None => None,
    }
}

fn same_path(a: &HostPath, b: &HostPath) -> (r: bool)
    ensures
        r == (a@ == b@),
{
    assert(a@.parts.len() == a.parts@.len());
    assert(b@.parts.len() == b.parts@.len());
    if !same_str(a.root.as_str(), b.root.as_str()) {
        return false;
    }
    if a.parts.len() != b.parts.len() {
        return false;
    }
    let mut i: usize = 0;
    while i < a.parts.len()
        invariant
            i <= a.parts@.len(),
            a.parts@.len() == b.parts@.len(),
            forall|j: int| 0 <= j < i ==> (#[trigger] a.parts@[j])@ == b.parts@[j]@,
        decreases a.parts@.len() - i,
    {
        if !same_str(a.parts[i].as_str(), b.parts[i].as_str()) {
            assert(a@.parts[i as int] != b@.parts[i as int]);
            return false;
        }
        i = i + 1;
    }
    assert(a@ =~= b@);
    true
}

fn has_path(roots: &Vec<HostPath>, path: &HostPath) -> (r: bool)
    ensures
        r == text::views(roots@).contains(path@),
{
    let ghost all = text::views(roots@);
    let mut i: usize = 0;
    while i < roots.len()
        invariant
            i <= roots@.len(),
            all == text::views(roots@),
            forall|j: int| 0 <= j < i ==> #[trigger] all[j] != path@,
        decreases roots@.len() - i,
    {
        assert(all[i as int] == roots@[i as int]@);
        if same_path(&roots[i], path) {
            assert(all.contains(path@));
            return true;
        }
        i = i + 1;
    }
    false
}

/// The path of the given number of names of a path.
fn ancestor_of(path: &HostPath, n: usize) -> (r: HostPath)
    requires
        n <= path.parts@.len(),
    ensures
        r@ == path@.ancestor(n as int),
{
    let mut parts: Vec<String> = Vec::new();
    let mut i: usize = 0;
    while i < n
        invariant
            i <= n <= path.parts@.len(),
            parts@.len() == i,
            forall|j: int| 0 <= j < i ==> (#[trigger] parts@[j])@ == path.parts@[j]@,
        decreases n - i,
    {
        parts.push(path.parts[i].clone());
        i = i + 1;
    }
    assert(text::views(parts@) =~= text::views(path.parts@).take(n as int));
    HostPath { root: path.root.clone(), parts }
}

impl Clone for HostPath {
    fn clone(&self) -> (r: Self)
        ensures
            r@ == self@,
    {
        let r = ancestor_of(self, self.parts.len());
        assert(r@ =~= self@);
        r
    }
}

/// Adds a path and all those above it, the longest first, each only if it is not there already.
pub fn push_ancestors(path: &HostPath, roots: &mut Vec<HostPath>)
    ensures
        text::views(final(roots)@) == with_path(text::views(old(roots)@), path@),
{
    let ghost given = text::views(old(roots)@);
    let mut n: usize = path.parts.len();
    let mut done: bool = false;
    while !done
        invariant
            n <= path.parts@.len(),
            given == text::views(old(roots)@),
            !done ==> with_path(given, path@) == with_ancestors(
                text::views(roots@),
                path@,
                n as nat,
            ),
            done ==> with_path(given, path@) == text::views(roots@),
        decreases (if done {
            0
        } else {
            n + 1
        }),
    {
        let next = ancestor_of(path, n);
        let ghost before = roots@;
        if !has_path(roots, &next) {
            roots.push(next);
            assert(text::views(roots@) =~= text::views(before).push(path@.ancestor(n as int)));
        }
        if n == 0 {
            done = true;
        } else {
            n = n - 1;
        }
    }
}

/// The roots under which the tool is looked for.
pub fn candidate_roots(
    exe_dir: &Option<HostPath>,
    current_dir: &Option<HostPath>,
    source_root: &HostPath,
) -> (r: Vec<HostPath>)
    ensures
        text::views(r@) == candidates(
            optional_path(*exe_dir),
            optional_path(*current_dir),
            source_root@,
        ),
{
    let mut roots: Vec<HostPath> = Vec::new();
    assert(text::views(roots@) =~= Seq::empty());
    if let Some(dir) = exe_dir {
        push_ancestors(dir, &mut roots);
    }
    if let Some(dir) = current_dir {
        push_ancestors(dir, &mut roots);
    }
    let ghost before = roots@;
    roots.push(source_root.clone());
    assert(text::views(roots@) =~= text::views(before).push(source_root@));
    roots
}

// ---------------------------------------------------------------------------
// The root
// ---------------------------------------------------------------------------

/// The first root that holds the tool, or the source directory where none does. The flags say of
/// each root whether it holds the tool.
pub open spec fn root_of(
    roots: Seq<PathView>,
    holds_tool: Seq<bool>,
    source_root: PathView,
) -> PathView
    decreases roots.len(),
{
    if roots.len() == 0 {
        source_root
    } else if holds_tool[0] {
        roots[0]
    } else {
        root_of(roots.skip(1), holds_tool.skip(1), source_root)
    }
}

/// The root is the first that holds the tool, where one does, and the source directory
/// otherwise.
pub proof fn law_root_is_the_first_that_holds_the_tool(
    roots: Seq<PathView>,
    holds_tool: Seq<bool>,
    source_root: PathView,
)
    requires
        holds_tool.len() == roots.len(),
    ensures
        forall|i: int|
            0 <= i < roots.len() && #[trigger] holds_tool[i] && (forall|j: int|
                0 <= j < i ==> !#[trigger] holds_tool[j]) ==> root_of(
                roots,
                holds_tool,
                source_root,
            ) == roots[i],
        (forall|j: int| 0 <= j < roots.len() ==> !#[trigger] holds_tool[j]) ==> root_of(
            roots,
            holds_tool,
            source_root,
        ) == source_root,
    decreases roots.len(),
{
    if roots.len() > 0 && !holds_tool[0] {
        let rest = roots.skip(1);
        let flags = holds_tool.skip(1);
        law_root_is_the_first_that_holds_the_tool(rest, flags, source_root);
        assert forall|i: int|
            0 <= i < roots.len() && #[trigger] holds_tool[i] && (forall|j: int|
                0 <= j < i ==> !#[trigger] holds_tool[j]) implies root_of(
            roots,
            holds_tool,
            source_root,
        ) == roots[i] by {
            assert(flags[i - 1]);
            assert forall|j: int| 0 <= j < i - 1 implies !#[trigger] flags[j] by {
                assert(!holds_tool[j + 1]);
            }
            assert(rest[i - 1] == roots[i]);
        }
        if forall|j: int| 0 <= j < roots.len() ==> !#[trigger] holds_tool[j] {
            assert forall|j: int| 0 <= j < rest.len() implies !#[trigger] flags[j] by {
                assert(!holds_tool[j + 1]);
            }
        }
    }
}

/// The root of the application: the first of the candidates that holds the tool, or the source
/// directory. The flags say of each candidate whether it holds the tool.
pub fn workspace_root(
    roots: &Vec<HostPath>,
    holds_tool: &Vec<bool>,
    source_root: &HostPath,
) -> (r: HostPath)
    requires
        holds_tool@.len() == roots@.len(),
    ensures
        r@ == root_of(text::views(roots@), holds_tool@, source_root@),
{
    let ghost all = text::views(roots@);
    let ghost flags = holds_tool@;
    let mut i: usize = 0;
    assert(all.skip(0) =~= all);
    assert(flags.skip(0) =~= flags);
    while i < roots.len()
        invariant
            i <= roots@.len(),
            holds_tool@.len() == roots@.len(),
            all == text::views(roots@),
            flags == holds_tool@,
            root_of(all, flags, source_root@) == root_of(
                all.skip(i as int),
                flags.skip(i as int),
                source_root@,
            ),
        decreases roots@.len() - i,
    {
        assert(all.skip(i as int).skip(1) =~= all.skip(i + 1));
        assert(flags.skip(i as int).skip(1) =~= flags.skip(i + 1));
        if holds_tool[i] {
            assert(all.skip(i as int)[0] == roots@[i as int]@);
            return roots[i].clone();
        }
        i = i + 1;
    }
    source_root.clone()
}

/// The directory that holds the tool.
pub fn workspace_adb_dir(root: &HostPath, os: HostOs) -> (r: HostPath)
    ensures
        r@ == root@.join(seq!["adb"@, platform_dir(os)@]),
{
    broadcast use text::lemma_views_push;

    let mut r = root.clone();
    r.parts.push(String::from_str("adb"));
    r.parts.push(String::from_str(adb_platform_dir(os)));
    assert(r@ =~= root@.join(seq!["adb"@, platform_dir(os)@]));
    r
}

/// The path of the tool.
pub fn workspace_adb_path(root: &HostPath, os: HostOs) -> (r: HostPath)
    ensures
        r@ == root@.join(relative_parts(os)),
{
    broadcast use text::lemma_views_push;

    let mut r = workspace_adb_dir(root, os);
    r.parts.push(String::from_str(adb_binary_name(os)));
    assert(r@ =~= root@.join(relative_parts(os)));
    r
}

/// The path of the tool ends with its path from the root of the application, and lies in the
/// directory of the tool.
pub proof fn law_adb_path(root: PathView, os: HostOs)
    ensures
        relative_parts(os).is_suffix_of(root.join(relative_parts(os)).parts),
        root.join(relative_parts(os)) == root.join(seq!["adb"@, platform_dir(os)@]).join(
            seq![binary_name(os)@],
        ),
{
    assert(root.join(relative_parts(os)) =~= root.join(seq!["adb"@, platform_dir(os)@]).join(
        seq![binary_name(os)@],
    ));
}

/// The tool is looked for in the directory of the program first, then in those above it, then in
/// the working directory and those above it, and in the source directory last.
pub proof fn law_places_of_the_tool(
    exe_dir: PathView,
    current_dir: PathView,
    source_root: PathView,
    n: int,
)
    ensures
        candidates(Some(exe_dir), Some(current_dir), source_root)[0] == exe_dir,
        0 <= n <= exe_dir.parts.len() ==> candidates(
            Some(exe_dir),
            Some(current_dir),
            source_root,
        ).contains(exe_dir.ancestor(n)),
        0 <= n <= current_dir.parts.len() ==> candidates(
            Some(exe_dir),
            Some(current_dir),
            source_root,
        ).contains(current_dir.ancestor(n)),
        candidates(Some(exe_dir), Some(current_dir), source_root).last() == source_root,
        candidates(None, None, source_root) == seq![source_root],
{
    let none = Seq::<PathView>::empty();
    let first = with_path(none, exe_dir);
    let second = with_path(first, current_dir);
    lemma_with_ancestors(none, exe_dir, exe_dir.parts.len());
    lemma_with_ancestors(first, current_dir, current_dir.parts.len());
    assert(exe_dir.ancestor(exe_dir.parts.len() as int) == exe_dir) by {
        assert(exe_dir.parts.take(exe_dir.parts.len() as int) =~= exe_dir.parts);
    }
    let all = second.push(source_root);
    assert(first[0] == exe_dir);
    assert(second[0] == first[0]);
    if 0 <= n <= exe_dir.parts.len() {
        let k = choose|k: int| 0 <= k < first.len() && first[k] == exe_dir.ancestor(n);
        assert(all[k] == exe_dir.ancestor(n));
    }
    if 0 <= n <= current_dir.parts.len() {
        let k = choose|k: int| 0 <= k < second.len() && second[k] == current_dir.ancestor(n);
        assert(all[k] == current_dir.ancestor(n));
    }
    assert(none.push(source_root) =~= seq![source_root]);
}

proof fn lemma_with_ancestors(roots: Seq<PathView>, path: PathView, n: nat)
    ensures
        roots.is_prefix_of(with_ancestors(roots, path, n)),
        forall|k: int|
            0 <= k <= n ==> with_ancestors(roots, path, n).contains(#[trigger] path.ancestor(k)),
        roots.len() == 0 ==> with_ancestors(roots, path, n).len() > 0 && with_ancestors(
            roots,
            path,
            n,
        )[0] == path.ancestor(n as int),
    decreases n,
{
    let next = path.ancestor(n as int);
    let longer = if roots.contains(next) {
        roots
    } else {
        roots.push(next)
    };
    let all = with_ancestors(roots, path, n);
    assert(longer.contains(next)) by {
        if !roots.contains(next) {
            assert(longer[roots.len() as int] == next);
        }
    }
    assert(longer.take(roots.len() as int) =~= roots);
    if n > 0 {
        lemma_with_ancestors(longer, path, (n - 1) as nat);
        assert(all.take(roots.len() as int) =~= roots) by {
            assert(all.take(longer.len() as int) == longer);
            assert(all.take(roots.len() as int) =~= all.take(longer.len() as int).take(
                roots.len() as int,
            ));
        }
        let k = choose|k: int| 0 <= k < longer.len() && longer[k] == next;
        assert(all.take(longer.len() as int)[k] == all[k]);
        assert(all[k] == next);
        assert(all.contains(next));
        if roots.len() == 0 {
            assert(longer.len() == 1 && longer[0] == next);
            assert(all.take(1)[0] == all[0]);
        }
    }
}

} // verus!
