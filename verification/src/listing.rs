//! The listing of the items of a module across versions of a crate: each item of
//! a listed kind that lies under the module is filed under its kind and its
//! `::`-joined path, with the versions that hold it, in the order they came.

use vstd::prelude::*;
use vstd::string::StringExecFns;

verus! {

/// The kinds of items that rustdoc describes, as far as the listing tells them apart.
#[derive(Clone, Copy, PartialEq, Eq, Structural, Debug)]
pub enum ItemKind {
    Function,
    Module,
    Struct,
    Enum,
    Trait,
    TypeAlias,
    Other,
}

/// The kinds that the listing shows, in the order of its sections.
pub open spec fn is_listed_kind(kind: ItemKind) -> bool {
    kind != ItemKind::Other
}

/// The title of the section of a kind.
pub open spec fn section_title(kind: ItemKind) -> Seq<char> {
    match kind {
        ItemKind::Function => "---- [FUNCTIONS] ----"@,
        ItemKind::Module => "---- [MODULES] ----"@,
        ItemKind::Struct => "---- [STRUCTS] ----"@,
        ItemKind::Enum => "---- [ENUMS] ----"@,
        ItemKind::Trait => "---- [TRAITS] ----"@,
        ItemKind::TypeAlias => "---- [ALIASES] ----"@,
        ItemKind::Other => Seq::empty(),
    }
}

/// `segments` joined with `"::"` between each two of them.
pub open spec fn join_path(segments: Seq<Seq<char>>) -> Seq<char>
    decreases segments.len(),
{
    if segments.len() == 0 {
        Seq::empty()
    } else if segments.len() == 1 {
        segments[0]
    } else {
        join_path(segments.drop_last()) + seq![':', ':'] + segments.last()
    }
}

/// Whether `path` starts with the segments of `module`, as `<[T]>::starts_with` decides.
pub open spec fn under_module(module: Seq<Seq<char>>, path: Seq<Seq<char>>) -> bool {
    module.len() <= path.len() && path.take(module.len() as int) == module
}

/// A path lies under a module exactly when it is the module's segments followed
/// by any further segments, at any depth (none included).
pub proof fn law_under_module_is_prefix(module: Seq<Seq<char>>, path: Seq<Seq<char>>)
    ensures
        under_module(module, path) <==> exists|rest: Seq<Seq<char>>| path == module + rest,
        forall|rest: Seq<Seq<char>>| #[trigger] under_module(module, module + rest),
{
    if under_module(module, path) {
        assert(path =~= module + path.skip(module.len() as int));
    }
    if exists|rest: Seq<Seq<char>>| path == module + rest {
        let rest = choose|rest: Seq<Seq<char>>| path == module + rest;
        assert(path.take(module.len() as int) =~= module);
    }
    assert forall|rest: Seq<Seq<char>>| #[trigger] under_module(module, module + rest) by {
        assert((module + rest).take(module.len() as int) =~= module);
    }
}

/// The text of each string.
pub open spec fn texts(strings: Seq<String>) -> Seq<Seq<char>> {
    strings.map_values(|s: String| s@)
}

/// One item path of one kind, with the versions in which it was found.
pub struct GroupView {
    pub kind: ItemKind,
    pub path: Seq<char>,
    pub versions: Seq<Seq<char>>,
}

/// The groups hold listed kinds only, and no two of them share a kind and a path.
pub open spec fn groups_wf(groups: Seq<GroupView>) -> bool {
    &&& forall|i: int| 0 <= i < groups.len() ==> is_listed_kind(#[trigger] groups[i].kind)
    &&& forall|i: int, j: int|
        0 <= i < groups.len() && 0 <= j < groups.len() && i != j && groups[i].kind
            == groups[j].kind ==> #[trigger] groups[i].path != #[trigger] groups[j].path
}

/// Whether a group of `kind` and `path` is among the groups.
pub open spec fn has_group(groups: Seq<GroupView>, kind: ItemKind, path: Seq<char>) -> bool {
    exists|i: int| 0 <= i < groups.len() && (#[trigger] groups[i]).kind == kind && groups[i].path == path
}

/// The groups once `version` is recorded for the item `path` of `kind`: appended to
/// the versions of its group, or in a new group at the end.
pub open spec fn add_version(groups: Seq<GroupView>, kind: ItemKind, path: Seq<char>, version: Seq<char>) -> Seq<GroupView> {
    if has_group(groups, kind, path) {
        let i = choose|i: int| 0 <= i < groups.len() && (#[trigger] groups[i]).kind == kind && groups[i].path == path;
        groups.update(i, GroupView { kind, path, versions: groups[i].versions.push(version) })
    } else {
        groups.push(GroupView { kind, path, versions: seq![version] })
    }
}

/// Recording a version keeps every group, in its place and with the versions it
/// had, and leaves the item's group holding the new version last.
pub proof fn law_record_keeps_and_adds(
    groups: Seq<GroupView>,
    kind: ItemKind,
    path: Seq<char>,
    version: Seq<char>,
)
    requires
        groups_wf(groups),
        is_listed_kind(kind),
    ensures
        groups_wf(add_version(groups, kind, path, version)),
        add_version(groups, kind, path, version).len() >= groups.len(),
        forall|i: int|
            0 <= i < groups.len() ==> {
                let after = #[trigger] add_version(groups, kind, path, version)[i];
                &&& after.kind == groups[i].kind
                &&& after.path == groups[i].path
                &&& after.versions.take(groups[i].versions.len() as int) == groups[i].versions
            },
        exists|i: int|
            0 <= i < add_version(groups, kind, path, version).len() && {
                let g = #[trigger] add_version(groups, kind, path, version)[i];
                &&& g.kind == kind
                &&& g.path == path
                &&& g.versions.len() > 0
                &&& g.versions.last() == version
            },
{
    let after = add_version(groups, kind, path, version);
    if has_group(groups, kind, path) {
        let c = choose|c: int| 0 <= c < groups.len() && (#[trigger] groups[c]).kind == kind && groups[c].path == path;
        assert(groups[c].versions.push(version).take(groups[c].versions.len() as int) =~= groups[c].versions);
        assert forall|i: int| 0 <= i < groups.len() implies {
            let a = #[trigger] after[i];
            &&& a.kind == groups[i].kind
            &&& a.path == groups[i].path
            &&& a.versions.take(groups[i].versions.len() as int) == groups[i].versions
        } by {
            if i != c {
                assert(groups[i].versions.take(groups[i].versions.len() as int) =~= groups[i].versions);
            }
        }
        assert(after[c].versions.last() == version);
    } else {
        let n = groups.len() as int;
        assert forall|i: int| 0 <= i < groups.len() implies {
            let a = #[trigger] after[i];
            &&& a.kind == groups[i].kind
            &&& a.path == groups[i].path
            &&& a.versions.take(groups[i].versions.len() as int) == groups[i].versions
        } by {
            assert(groups[i].versions.take(groups[i].versions.len() as int) =~= groups[i].versions);
        }
        assert(after[n].kind == kind);
        assert forall|i: int, j: int|
            0 <= i < after.len() && 0 <= j < after.len() && i != j && after[i].kind
                == after[j].kind implies #[trigger] after[i].path != #[trigger] after[j].path by {
            if i == n && after[i].path == after[j].path {
                assert(groups[j].kind == kind && groups[j].path == path);
            }
            if j == n && after[i].path == after[j].path {
                assert(groups[i].kind == kind && groups[i].path == path);
            }
        }
    }
}

/// Recording a version changes nothing but the item's own group: every other
/// group stays exactly as it was, the item's group gains exactly that version at
/// its end, and when the item had no group a new one holding just that version
/// comes last.
pub proof fn law_record_changes_only_its_group(
    groups: Seq<GroupView>,
    kind: ItemKind,
    path: Seq<char>,
    version: Seq<char>,
)
    requires
        groups_wf(groups),
    ensures
        ({
            let after = add_version(groups, kind, path, version);
            &&& forall|i: int|
                0 <= i < groups.len() ==> #[trigger] after[i] == if groups[i].kind == kind
                    && groups[i].path == path {
                    GroupView { kind, path, versions: groups[i].versions.push(version) }
                } else {
                    groups[i]
                }
            &&& if exists|i: int| 0 <= i < groups.len() && groups[i].kind == kind && groups[i].path == path {
                after.len() == groups.len()
            } else {
                &&& after.len() == groups.len() + 1
                &&& after[groups.len() as int] == GroupView { kind, path, versions: seq![version] }
            }
        }),
{
    let after = add_version(groups, kind, path, version);
    if has_group(groups, kind, path) {
        let c = choose|c: int| 0 <= c < groups.len() && (#[trigger] groups[c]).kind == kind && groups[c].path == path;
        assert forall|i: int| 0 <= i < groups.len() implies #[trigger] after[i] == if groups[i].kind
            == kind && groups[i].path == path {
            GroupView { kind, path, versions: groups[i].versions.push(version) }
        } else {
            groups[i]
        } by {
            if i != c && groups[i].kind == kind && groups[i].path == path {
                assert(groups[i].path != groups[c].path);
            }
        }
    } else {
        assert forall|i: int| 0 <= i < groups.len() implies #[trigger] after[i] == if groups[i].kind
            == kind && groups[i].path == path {
            GroupView { kind, path, versions: groups[i].versions.push(version) }
        } else {
            groups[i]
        } by {
            if groups[i].kind == kind && groups[i].path == path {
                assert(has_group(groups, kind, path));
            }
        }
    }
}

/// One item path with the versions in which it was found.
pub struct VersionGroup {
    kind: ItemKind,
    path: String,
    versions: Vec<String>,
}

impl View for VersionGroup {
    type V = GroupView;

    closed spec fn view(&self) -> GroupView {
        GroupView { kind: self.kind, path: self.path@, versions: texts(self.versions@) }
    }
}

/// The items of one module across versions of a crate, grouped by kind and path.
pub struct ItemListing {
    groups: Vec<VersionGroup>,
}

impl ItemListing {
    #[verifier::type_invariant]
    spec fn listing_wf(self) -> bool {
        groups_wf(self@)
    }
}

impl View for ItemListing {
    type V = Seq<GroupView>;

    closed spec fn view(&self) -> Seq<GroupView> {
        group_views(self.groups@)
    }
}

/// Joins path segments with `"::"`.
pub fn join_segments(segments: &[String]) -> (joined: String)
    ensures
        joined@ == join_path(texts(segments@)),
{
    let ghost segs = texts(segments@);
    let mut joined = String::new();
    let mut i: usize = 0;
    while i < segments.len()
        invariant
            i <= segments@.len(),
            segs == texts(segments@),
            joined@ == join_path(segs.take(i as int)),
        decreases segments@.len() - i,
    {
        proof {
            reveal_strlit("::");
        }
        if i > 0 {
            joined.append("::");
        }
        joined.append(segments[i].as_str());
        assert(segs.take(i + 1).drop_last() =~= segs.take(i as int));
        i = i + 1;
    }
    assert(segs.take(segments@.len() as int) =~= segs);
    joined
}

/// Whether `path` starts with the segments of `module`.
pub fn starts_with_module(module: &[String], path: &[String]) -> (b: bool)
    ensures
        b == under_module(texts(module@), texts(path@)),
{
    if module.len() > path.len() {
        return false;
    }
    let mut i: usize = 0;
    while i < module.len()
        invariant
            i <= module@.len() <= path@.len(),
            forall|j: int| 0 <= j < i ==> module@[j]@ == path@[j]@,
        decreases module@.len() - i,
    {
        if module[i] != path[i] {
            assert(texts(path@).take(module@.len() as int)[i as int] != texts(module@)[i as int]);
            return false;
        }
        i = i + 1;
    }
    assert(texts(path@).take(module@.len() as int) =~= texts(module@));
    true
}

impl ItemListing {
    /// An empty listing.
    pub fn new() -> (l: Self)
        ensures
            l@ == Seq::<GroupView>::empty(),
    {
        let l = ItemListing { groups: Vec::new() };
        assert(l@ =~= Seq::<GroupView>::empty());
        l
    }

    /// Files `version` under the item `item_path` of `kind`, when the item lies under
    /// `module_segments` and its kind is one that the listing shows; otherwise the
    /// listing stays as it was.
    pub fn record(&mut self, module_segments: &[String], item_path: &[String], kind: ItemKind, version: &str)
        ensures
            groups_wf(final(self)@),
            final(self)@ == if under_module(texts(module_segments@), texts(item_path@)) && is_listed_kind(kind) {
                add_version(old(self)@, kind, join_path(texts(item_path@)), version@)
            } else {
                old(self)@
            },
    {
        proof {
            use_type_invariant(&*self);
        }
        if !is_listed(kind) || !starts_with_module(module_segments, item_path) {
            return;
        }
        let path = join_segments(item_path);
        let mut groups: Vec<VersionGroup> = Vec::new();
        std::mem::swap(&mut groups, &mut self.groups);
        add_to_groups(&mut groups, kind, path, version);
        proof {
            law_record_keeps_and_adds(old(self)@, kind, join_path(texts(item_path@)), version@);
        }
        self.groups = groups;
    }
}

/// The views of a sequence of groups.
pub open spec fn group_views(groups: Seq<VersionGroup>) -> Seq<GroupView> {
    groups.map_values(|g: VersionGroup| g@)
}

/// Files `version` under the group of `kind` and `path`, making the group if
/// there is none.
#[verifier::loop_isolation(false)]
fn add_to_groups(groups: &mut Vec<VersionGroup>, kind: ItemKind, path: String, version: &str)
    requires
        groups_wf(group_views(old(groups)@)),
    ensures
        group_views(final(groups)@) == add_version(group_views(old(groups)@), kind, path@, version@),
{
    let ghost old_view = group_views(groups@);
    let mut i: usize = 0;
    while i < groups.len()
        invariant
            i <= groups@.len(),
            group_views(groups@) == old_view,
            forall|j: int| 0 <= j < i ==> !((#[trigger] old_view[j]).kind == kind && old_view[j].path == path@),
        decreases groups@.len() - i,
    {
        if groups[i].kind == kind && groups[i].path == path {
            assert(groups@[i as int]@ == old_view[i as int]);
            let ghost old_versions = groups@[i as int].versions@;
            let entry = String::from_str(version);
            groups[i].versions.push(entry);
            proof {
                assert(old_view[i as int].kind == kind && old_view[i as int].path == path@);
                assert(has_group(old_view, kind, path@));
                assert(texts(old_versions.push(entry)) =~= texts(old_versions).push(version@));
                let c = choose|c: int| 0 <= c < old_view.len() && (#[trigger] old_view[c]).kind == kind && old_view[c].path == path@;
                assert(c == i);
                assert(group_views(groups@) =~= add_version(old_view, kind, path@, version@));
            }
            return;
        }
        i = i + 1;
    }
    let ghost path_view = path@;
    let entry = String::from_str(version);
    let mut versions: Vec<String> = Vec::new();
    versions.push(entry);
    groups.push(VersionGroup { kind, path, versions });
    proof {
        assert(texts(versions@) =~= seq![version@]);
        assert(!has_group(old_view, kind, path_view));
        assert(group_views(groups@) =~= add_version(old_view, kind, path_view, version@));
    }
}

/// The line that shows one version of an item.
pub open spec fn version_line(version: Seq<char>) -> Seq<char> {
    "    - "@ + version
}

/// The lines of a group: its path, then one line per version.
pub open spec fn group_lines(group: GroupView) -> Seq<Seq<char>> {
    seq![group.path] + group.versions.map_values(|v: Seq<char>| version_line(v))
}

/// The lines of the groups of one kind, in the order of the groups.
pub open spec fn kind_lines(groups: Seq<GroupView>, kind: ItemKind) -> Seq<Seq<char>>
    decreases groups.len(),
{
    if groups.len() == 0 {
        Seq::empty()
    } else {
        kind_lines(groups.drop_last(), kind) + if groups.last().kind == kind {
            group_lines(groups.last())
        } else {
            Seq::empty()
        }
    }
}

/// The section of one kind: its title, then the lines of its groups.
pub open spec fn section_lines(groups: Seq<GroupView>, kind: ItemKind) -> Seq<Seq<char>> {
    seq![section_title(kind)] + kind_lines(groups, kind)
}

/// The whole report: the sections of functions, modules, structs, enums, traits
/// and type aliases, in that order.
pub open spec fn report_lines(groups: Seq<GroupView>) -> Seq<Seq<char>> {
    section_lines(groups, ItemKind::Function) + section_lines(groups, ItemKind::Module)
        + section_lines(groups, ItemKind::Struct) + section_lines(groups, ItemKind::Enum)
        + section_lines(groups, ItemKind::Trait) + section_lines(groups, ItemKind::TypeAlias)
}

proof fn lemma_kind_lines_append(a: Seq<GroupView>, b: Seq<GroupView>, kind: ItemKind)
    ensures
        kind_lines(a + b, kind) == kind_lines(a, kind) + kind_lines(b, kind),
    decreases b.len(),
{
    if b.len() == 0 {
        assert(a + b =~= a);
        assert(kind_lines(a, kind) + kind_lines(b, kind) =~= kind_lines(a, kind));
    } else {
        lemma_kind_lines_append(a, b.drop_last(), kind);
        assert((a + b).drop_last() =~= a + b.drop_last());
        assert((a + b).last() == b.last());
        assert(kind_lines(a + b, kind) =~= kind_lines(a, kind) + kind_lines(b, kind));
    }
}

proof fn lemma_report_has_section(groups: Seq<GroupView>, kind: ItemKind)
    requires
        is_listed_kind(kind),
    ensures
        exists|before: Seq<Seq<char>>, after: Seq<Seq<char>>|
            report_lines(groups) == before + section_lines(groups, kind) + after,
{
    let f = section_lines(groups, ItemKind::Function);
    let m = section_lines(groups, ItemKind::Module);
    let st = section_lines(groups, ItemKind::Struct);
    let e = section_lines(groups, ItemKind::Enum);
    let t = section_lines(groups, ItemKind::Trait);
    let al = section_lines(groups, ItemKind::TypeAlias);
    let r = report_lines(groups);
    let none = Seq::<Seq<char>>::empty();
    match kind {
        ItemKind::Function => {
            assert(r =~= none + f + (m + st + e + t + al));
        },
        ItemKind::Module => {
            assert(r =~= f + m + (st + e + t + al));
        },
        ItemKind::Struct => {
            assert(r =~= (f + m) + st + (e + t + al));
        },
        ItemKind::Enum => {
            assert(r =~= (f + m + st) + e + (t + al));
        },
        ItemKind::Trait => {
            assert(r =~= (f + m + st + e) + t + al);
        },
        ItemKind::TypeAlias => {
            assert(r =~= (f + m + st + e + t) + al + none);
        },
        ItemKind::Other => {},
    }
}

/// Number of lines that the groups take in a report: for each, its path and one
/// line per version.
pub open spec fn group_line_count(groups: Seq<GroupView>) -> nat
    decreases groups.len(),
{
    if groups.len() == 0 {
        0
    } else {
        group_line_count(groups.drop_last()) + 1 + groups.last().versions.len()
    }
}

proof fn lemma_kind_lines_count(groups: Seq<GroupView>)
    requires
        forall|i: int| 0 <= i < groups.len() ==> is_listed_kind(#[trigger] groups[i].kind),
    ensures
        kind_lines(groups, ItemKind::Function).len() + kind_lines(groups, ItemKind::Module).len()
            + kind_lines(groups, ItemKind::Struct).len() + kind_lines(groups, ItemKind::Enum).len()
            + kind_lines(groups, ItemKind::Trait).len() + kind_lines(groups, ItemKind::TypeAlias).len()
            == group_line_count(groups),
    decreases groups.len(),
{
    if groups.len() > 0 {
        let rest = groups.drop_last();
        assert forall|i: int| 0 <= i < rest.len() implies is_listed_kind(#[trigger] rest[i].kind) by {
            assert(rest[i] == groups[i]);
        }
        lemma_kind_lines_count(rest);
        assert(is_listed_kind(groups[groups.len() - 1].kind));
        assert(group_lines(groups.last()).len() == 1 + groups.last().versions.len());
    }
}

/// The report shows every group, and nothing else than the six titles and the
/// groups: each group's path stands after the title of its kind, followed by one
/// `    - {version}` line per version in the order recorded, and the report has
/// one line per title, per group and per version.
pub proof fn law_report_shows_every_group(groups: Seq<GroupView>, i: int)
    requires
        groups_wf(groups),
        0 <= i < groups.len(),
    ensures
        report_lines(groups).len() == 6 + group_line_count(groups),
        exists|t: int, p: int|
            {
                &&& 0 <= t < p
                &&& p + groups[i].versions.len() < report_lines(groups).len()
                &&& report_lines(groups)[t] == section_title(groups[i].kind)
                &&& report_lines(groups)[p] == groups[i].path
                &&& forall|j: int|
                    0 <= j < groups[i].versions.len() ==> report_lines(groups)[p + 1 + j] == "    - "@
                        + #[trigger] groups[i].versions[j]
            },
{
    let g = groups[i];
    let k = g.kind;
    let r = report_lines(groups);
    lemma_kind_lines_count(groups);
    assert(r.len() == 6 + group_line_count(groups));
    let front = groups.take(i);
    let back = groups.skip(i + 1);
    assert(groups =~= front + seq![g] + back);
    lemma_kind_lines_append(front + seq![g], back, k);
    lemma_kind_lines_append(front, seq![g], k);
    assert(seq![g].drop_last() =~= Seq::<GroupView>::empty());
    assert(seq![g].last() == g);
    assert(kind_lines(seq![g].drop_last(), k) == Seq::<Seq<char>>::empty());
    assert(kind_lines(seq![g], k) =~= group_lines(g));
    let x = kind_lines(front, k);
    let y = kind_lines(back, k);
    assert(kind_lines(groups, k) == x + group_lines(g) + y);
    lemma_report_has_section(groups, k);
    let (before, after) = choose|before: Seq<Seq<char>>, after: Seq<Seq<char>>|
        r == before + section_lines(groups, k) + after;
    let gl = group_lines(g);
    assert(r =~= before + seq![section_title(k)] + x + gl + (y + after));
    let t = before.len() as int;
    let p = t + 1 + x.len();
    assert(r[t] == section_title(k));
    assert(gl.len() == 1 + g.versions.len());
    assert(r[p] == gl[0]);
    assert forall|j: int| 0 <= j < g.versions.len() implies r[p + 1 + j] == "    - "@
        + #[trigger] g.versions[j] by {
        assert(r[p + 1 + j] == gl[1 + j]);
        assert(gl[1 + j] == version_line(g.versions[j]));
    }
}

fn section_title_text(kind: ItemKind) -> (s: String)
    ensures
        s@ == section_title(kind),
{
    match kind {
        ItemKind::Function => String::from_str("---- [FUNCTIONS] ----"),
        ItemKind::Module => String::from_str("---- [MODULES] ----"),
        ItemKind::Struct => String::from_str("---- [STRUCTS] ----"),
        ItemKind::Enum => String::from_str("---- [ENUMS] ----"),
        ItemKind::Trait => String::from_str("---- [TRAITS] ----"),
        ItemKind::TypeAlias => String::from_str("---- [ALIASES] ----"),
        ItemKind::Other => String::new(),
    }
}

impl ItemListing {
    /// Appends the section of `kind` to `out`.
    fn push_section(&self, out: &mut Vec<String>, kind: ItemKind)
        ensures
            texts(final(out)@) == texts(old(out)@) + section_lines(self@, kind),
    {
        let ghost start = texts(out@);
        let ghost groups = self@;
        out.push(section_title_text(kind));
        assert(texts(out@) =~= start + seq![section_title(kind)]);
        let mut i: usize = 0;
        while i < self.groups.len()
            invariant
                i <= self.groups@.len(),
                groups == self@,
                texts(out@) == start + seq![section_title(kind)] + kind_lines(groups.take(i as int), kind),
            decreases self.groups@.len() - i,
        {
            let group = &self.groups[i];
            assert(groups.take(i + 1).drop_last() =~= groups.take(i as int));
            assert(groups.take(i + 1).last() == group@);
            if group.kind == kind {
                let ghost before = texts(out@);
                out.push(group.path.clone());
                assert(texts(out@) =~= before + seq![group.path@]);
                let mut k: usize = 0;
                while k < group.versions.len()
                    invariant
                        k <= group.versions@.len(),
                        texts(out@) == before + seq![group.path@] + texts(group.versions@).take(
                            k as int,
                        ).map_values(|v: Seq<char>| version_line(v)),
                    decreases group.versions@.len() - k,
                {
                    let ghost before_line = texts(out@);
                    let mut line = String::from_str("    - ");
                    line.append(group.versions[k].as_str());
                    out.push(line);
                    assert(texts(out@) =~= before_line + seq![line@]);
                    assert(texts(group.versions@).take(k + 1).map_values(
                        |v: Seq<char>| version_line(v),
                    ) =~= texts(group.versions@).take(k as int).map_values(
                        |v: Seq<char>| version_line(v),
                    ).push(version_line(group.versions@[k as int]@)));
                    k = k + 1;
                }
                assert(texts(group.versions@).take(group.versions@.len() as int) =~= texts(
                    group.versions@,
                ));
                assert(seq![group.path@] + texts(group.versions@).map_values(
                    |v: Seq<char>| version_line(v),
                ) =~= group_lines(group@));
            }
            i = i + 1;
        }
        assert(groups.take(self.groups@.len() as int) =~= groups);
    }

    /// The report of the listing, line by line: for each kind, in the order of
    /// `report_lines`, the section title, then each group of that kind with its path
    /// and one `    - {version}` line per version.
    pub fn report(&self) -> (lines: Vec<String>)
        ensures
            texts(lines@) == report_lines(self@),
    {
        let mut lines: Vec<String> = Vec::new();
        assert(texts(lines@) =~= Seq::<Seq<char>>::empty());
        self.push_section(&mut lines, ItemKind::Function);
        self.push_section(&mut lines, ItemKind::Module);
        self.push_section(&mut lines, ItemKind::Struct);
        self.push_section(&mut lines, ItemKind::Enum);
        self.push_section(&mut lines, ItemKind::Trait);
        self.push_section(&mut lines, ItemKind::TypeAlias);
        assert(texts(lines@) =~= report_lines(self@));
        lines
    }
}

/// Whether the listing shows items of `kind`.
pub fn is_listed(kind: ItemKind) -> (b: bool)
    ensures
        b == is_listed_kind(kind),
{
    match kind {
        ItemKind::Other => false,
        _ => true,
    }
}

} // verus!
