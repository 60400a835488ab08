//! Finds the packaged versions of a mod already in the install directory and
//! decides what to remove before the new archive is written.
//!
//! Every entry of the install directory whose path matches the glob
//! `<dir>/<name>_*[0-9].*[0-9].*[0-9].zip` is a stale version: a regular file
//! is removed, anything else is reported and left alone. Whatever then stands
//! at the new archive's own path is removed as well, whether or not old
//! versions are kept.

use vstd::prelude::*;
use crate::identity::{InfoJson, qualified_name, zip_name};
use crate::paths::{in_dir, in_dir_path, join_path, joined};

verus! {

#[verifier::external_type_specification]
#[verifier::external_body]
pub struct ExPattern(glob::Pattern);

#[verifier::external_type_specification]
#[verifier::external_body]
pub struct ExPatternError(glob::PatternError);

/// Whether `glob::Pattern::new` accepts the pattern text.
pub uninterp spec fn glob_compiles(pattern: Seq<char>) -> bool;

/// Whether the pattern compiled from `pattern` matches `path` under glob's
/// default options.
pub uninterp spec fn glob_matches(pattern: Seq<char>, path: Seq<char>) -> bool;

/// A compiled glob pattern and the text it was compiled from. Only
/// `compile_glob` builds one, so `compiled` always comes from `source`.
pub struct GlobPattern {
    source: String,
    compiled: glob::Pattern,
}

impl GlobPattern {
    /// The text the pattern was compiled from.
    pub closed spec fn text(&self) -> Seq<char> {
        self.source@
    }
}

/// Relies on glob::Pattern::new, which accepts or refuses a pattern by its
/// text alone.
#[verifier::external_body]
fn compile_glob(source: String) -> (r: Result<GlobPattern, glob::PatternError>)
    ensures
        r is Ok <==> glob_compiles(source@),
        r is Ok ==> r->Ok_0.text() == source@,
{
    match glob::Pattern::new(source.as_str()) {
        Ok(compiled) => Ok(GlobPattern { source, compiled }),
        Err(e) => Err(e),
    }
}

/// Relies on glob::Pattern::matches, whose answer depends on the pattern's
/// text and the path alone.
#[verifier::external_body]
fn glob_match(pattern: &GlobPattern, path: &str) -> (r: bool)
    ensures
        r == glob_matches(pattern.text(), path@),
{
    pattern.compiled.matches(path)
}

/// What stands at a path in the install directory.
#[derive(Clone, Copy, Debug, PartialEq, Eq, Structural)]
pub enum ItemKind {
    File,
    Directory,
    Other,
}

/// An entry of the install directory: its file name and what it is.
pub struct DirItem {
    pub name: String,
    pub kind: ItemKind,
}

impl View for DirItem {
    type V = (Seq<char>, ItemKind);

    open spec fn view(&self) -> (Seq<char>, ItemKind) {
        (self.name@, self.kind)
    }
}

/// A stale version found in the install directory: its file name, its path,
/// and whether it is removed (a regular file) or only reported.
pub struct StaleMatch {
    pub name: String,
    pub path: String,
    pub remove: bool,
}

impl View for StaleMatch {
    type V = (Seq<char>, Seq<char>, bool);

    open spec fn view(&self) -> (Seq<char>, Seq<char>, bool) {
        (self.name@, self.path@, self.remove)
    }
}

/// Why the stale versions could not be looked for.
#[derive(Clone, Copy, Debug, PartialEq, Eq, Structural)]
pub enum CleanupError {
    /// glob refused the pattern built from the directory and the mod's name.
    BadPattern,
}

/// The views of a directory listing.
pub open spec fn items_view(items: Seq<DirItem>) -> Seq<(Seq<char>, ItemKind)> {
    items.map_values(|e: DirItem| e@)
}

/// The views of a list of stale versions.
pub open spec fn matches_view(ms: Seq<StaleMatch>) -> Seq<(Seq<char>, Seq<char>, bool)> {
    ms.map_values(|m: StaleMatch| m@)
}

/// The glob that matches every packaged version of mod `mod_name` in `dir`.
pub open spec fn stale_glob(dir: Seq<char>, mod_name: Seq<char>) -> Seq<char> {
    dir + seq!['/'] + mod_name + "_*[0-9].*[0-9].*[0-9].zip"@
}

/// The entry `name` of `dir` is a packaged version of mod `mod_name`.
pub open spec fn is_stale(dir: Seq<char>, mod_name: Seq<char>, name: Seq<char>) -> bool {
    glob_matches(stale_glob(dir, mod_name), in_dir(dir, name))
}

/// The stale versions among `items`, in their order.
pub open spec fn stale_steps(
    dir: Seq<char>,
    mod_name: Seq<char>,
    items: Seq<(Seq<char>, ItemKind)>,
) -> Seq<(Seq<char>, Seq<char>, bool)>
    decreases items.len(),
{
    if items.len() == 0 {
        Seq::empty()
    } else {
        let rest = stale_steps(dir, mod_name, items.drop_last());
        let e = items.last();
        if is_stale(dir, mod_name, e.0) {
            rest.push((e.0, in_dir(dir, e.0), e.1 == ItemKind::File))
        } else {
            rest
        }
    }
}

/// The glob pattern for the packaged versions of mod `mod_name` in
/// `target_dir`.
pub fn make_glob_str(target_dir: &str, mod_name: &str) -> (r: String)
    ensures
        r@ == stale_glob(target_dir@, mod_name@),
{
    let mut r = target_dir.to_owned();
    let sep = "/";
    proof {
        reveal_strlit("/");
    }
    r.append(sep);
    r.append(mod_name);
    r.append("_*[0-9].*[0-9].*[0-9].zip");
    r
}

/// The stale versions among `listing` that `pattern` matches.
fn find_stale(
    pattern: &GlobPattern,
    target_dir: &str,
    mod_name: &str,
    listing: &Vec<DirItem>,
) -> (r: Vec<StaleMatch>)
    requires
        pattern.text() == stale_glob(target_dir@, mod_name@),
    ensures
        matches_view(r@) == stale_steps(target_dir@, mod_name@, items_view(listing@)),
{
    let ghost items = items_view(listing@);
    let mut r: Vec<StaleMatch> = Vec::new();
    let mut i: usize = 0;
    while i < listing.len()
        invariant
            0 <= i <= listing.len(),
            items == items_view(listing@),
            pattern.text() == stale_glob(target_dir@, mod_name@),
            matches_view(r@) == stale_steps(target_dir@, mod_name@, items.take(i as int)),
        decreases listing.len() - i,
    {
        let item = &listing[i];
        let path = in_dir_path(target_dir, item.name.as_str());
        proof {
            assert(items.take(i + 1).drop_last() =~= items.take(i as int));
            assert(items.take(i + 1).last() == item@);
        }
        if glob_match(pattern, path.as_str()) {
            let ghost before = r@;
            let m = StaleMatch {
                name: item.name.clone(),
                path,
                remove: item.kind == ItemKind::File,
            };
            r.push(m);
            proof {
                assert(r@ == before.push(m));
                assert(matches_view(r@) =~= matches_view(before).push(m@));
            }
        }
        i += 1;
    }
    proof {
        assert(items.take(i as int) =~= items);
    }
    r
}

/// The packaged versions of mod `mod_name` found in `listing`, the entries of
/// `target_dir`: each with its path, and marked for removal where it is a
/// regular file. Fails only where glob refuses the pattern.
pub fn remove_old_versions(target_dir: &str, mod_name: &str, listing: &Vec<DirItem>) -> (r: Result<
    Vec<StaleMatch>,
    CleanupError,
>)
    ensures
        r is Err <==> !glob_compiles(stale_glob(target_dir@, mod_name@)),
        r is Err ==> r == Err::<Vec<StaleMatch>, CleanupError>(CleanupError::BadPattern),
        r is Ok ==> matches_view(r->Ok_0@) == stale_steps(
            target_dir@,
            mod_name@,
            items_view(listing@),
        ),
{
    let pattern = match compile_glob(make_glob_str(target_dir, mod_name)) {
        Ok(p) => p,
        Err(_) => return Err(CleanupError::BadPattern),
    };
    Ok(find_stale(&pattern, target_dir, mod_name, listing))
}

/// The entry is removed as a stale version: old versions are not kept, the
/// entry matches the glob, and it is a regular file.
pub open spec fn removed_as_stale(
    dir: Seq<char>,
    mod_name: Seq<char>,
    keep_old: bool,
    e: (Seq<char>, ItemKind),
) -> bool {
    !keep_old && is_stale(dir, mod_name, e.0) && e.1 == ItemKind::File
}

/// What stands at the new archive's file name `zip` once the stale versions
/// are gone: the kind of the first such entry left, if any.
pub open spec fn output_kind(
    dir: Seq<char>,
    mod_name: Seq<char>,
    keep_old: bool,
    zip: Seq<char>,
    items: Seq<(Seq<char>, ItemKind)>,
) -> Option<ItemKind>
    decreases items.len(),
{
    if items.len() == 0 {
        None
    } else if items[0].0 == zip && !removed_as_stale(dir, mod_name, keep_old, items[0]) {
        Some(items[0].1)
    } else {
        output_kind(dir, mod_name, keep_old, zip, items.drop_first())
    }
}

/// Entries that the stale steps `steps` leave in place: all but the regular
/// files whose name a step marks for removal.
pub open spec fn kept_by(
    steps: Seq<(Seq<char>, Seq<char>, bool)>,
) -> spec_fn((Seq<char>, ItemKind)) -> bool {
    |e: (Seq<char>, ItemKind)|
        !(e.1 == ItemKind::File && exists|j: int|
            0 <= j < steps.len() && #[trigger] steps[j].0 == e.0 && steps[j].2)
}

/// The entries of the install directory once a plan with stale steps `steps`
/// is carried out and the archive `zip` is written: the files the steps mark
/// are gone, and whatever stood at `zip` has given way to the new archive.
pub open spec fn carry_out(
    items: Seq<(Seq<char>, ItemKind)>,
    steps: Seq<(Seq<char>, Seq<char>, bool)>,
    zip: Seq<char>,
) -> Seq<(Seq<char>, ItemKind)> {
    items.filter(kept_by(steps)).filter(named_otherwise(zip)).push((zip, ItemKind::File))
}

/// Entries that survive the sweep of stale versions.
pub open spec fn survives_sweep(
    dir: Seq<char>,
    mod_name: Seq<char>,
    keep_old: bool,
) -> spec_fn((Seq<char>, ItemKind)) -> bool {
    |e: (Seq<char>, ItemKind)| !removed_as_stale(dir, mod_name, keep_old, e)
}

/// Entries not named `zip`.
pub open spec fn named_otherwise(zip: Seq<char>) -> spec_fn((Seq<char>, ItemKind)) -> bool {
    |e: (Seq<char>, ItemKind)| e.0 != zip
}

/// Entries named `zip`.
pub open spec fn named(zip: Seq<char>) -> spec_fn((Seq<char>, ItemKind)) -> bool {
    |e: (Seq<char>, ItemKind)| e.0 == zip
}

/// The entries of the install directory after a packaging run of mod `name`
/// at `version`: the stale files are gone, and whatever stood at the
/// archive's path has given way to the new archive.
pub open spec fn after_run(
    dir: Seq<char>,
    name: Seq<char>,
    version: Seq<char>,
    keep_old: bool,
    items: Seq<(Seq<char>, ItemKind)>,
) -> Seq<(Seq<char>, ItemKind)> {
    let zip = zip_name(qualified_name(name, version));
    items.filter(survives_sweep(dir, name, keep_old)).filter(named_otherwise(zip)).push(
        (zip, ItemKind::File),
    )
}

proof fn lemma_steps_stale(dir: Seq<char>, mod_name: Seq<char>, items: Seq<(Seq<char>, ItemKind)>)
    ensures
        forall|j: int|
            0 <= j < stale_steps(dir, mod_name, items).len() ==> is_stale(
                dir,
                mod_name,
                (#[trigger] stale_steps(dir, mod_name, items)[j]).0,
            ),
    decreases items.len(),
{
    if items.len() > 0 {
        let steps = stale_steps(dir, mod_name, items);
        let rest = stale_steps(dir, mod_name, items.drop_last());
        lemma_steps_stale(dir, mod_name, items.drop_last());
        assert forall|j: int| 0 <= j < steps.len() implies is_stale(
            dir,
            mod_name,
            (#[trigger] steps[j]).0,
        ) by {
            if j < rest.len() {
                assert(steps[j] == rest[j]);
            }
        }
    }
}

proof fn lemma_steps_cover(
    dir: Seq<char>,
    mod_name: Seq<char>,
    items: Seq<(Seq<char>, ItemKind)>,
    i: int,
)
    requires
        0 <= i < items.len(),
        is_stale(dir, mod_name, items[i].0),
    ensures
        exists|j: int|
            0 <= j < stale_steps(dir, mod_name, items).len() && #[trigger] stale_steps(
                dir,
                mod_name,
                items,
            )[j] == (items[i].0, in_dir(dir, items[i].0), items[i].1 == ItemKind::File),
    decreases items.len(),
{
    let steps = stale_steps(dir, mod_name, items);
    let rest = stale_steps(dir, mod_name, items.drop_last());
    if i == items.len() - 1 {
        assert(steps[rest.len() as int] == (
            items[i].0,
            in_dir(dir, items[i].0),
            items[i].1 == ItemKind::File,
        ));
    } else {
        lemma_steps_cover(dir, mod_name, items.drop_last(), i);
        let j = choose|j: int|
            0 <= j < rest.len() && #[trigger] rest[j] == (
                items.drop_last()[i].0,
                in_dir(dir, items.drop_last()[i].0),
                items.drop_last()[i].1 == ItemKind::File,
            );
        assert(steps[j] == rest[j]);
    }
}

proof fn lemma_filter_agree<A>(s: Seq<A>, p: spec_fn(A) -> bool, q: spec_fn(A) -> bool)
    requires
        forall|i: int| 0 <= i < s.len() ==> p(s[i]) == q(s[i]),
    ensures
        s.filter(p) == s.filter(q),
    decreases s.len(),
{
    reveal(Seq::filter);
    if s.len() > 0 {
        lemma_filter_agree(s.drop_last(), p, q);
    }
}

/// Carrying out the cleanup plan for a listing and writing the archive
/// leaves the install directory as `after_run` describes.
proof fn lemma_plan_carries_out_run(
    dir: Seq<char>,
    name: Seq<char>,
    version: Seq<char>,
    keep_old: bool,
    items: Seq<(Seq<char>, ItemKind)>,
)
    ensures
        carry_out(
            items,
            if keep_old {
                Seq::empty()
            } else {
                stale_steps(dir, name, items)
            },
            zip_name(qualified_name(name, version)),
        ) == after_run(dir, name, version, keep_old, items),
{
    let steps = if keep_old {
        Seq::empty()
    } else {
        stale_steps(dir, name, items)
    };
    let kept = kept_by(steps);
    let sweep = survives_sweep(dir, name, keep_old);
    lemma_steps_stale(dir, name, items);
    assert forall|i: int| 0 <= i < items.len() implies kept(items[i]) == sweep(items[i]) by {
        let e = items[i];
        if removed_as_stale(dir, name, keep_old, e) {
            lemma_steps_cover(dir, name, items, i);
            let j = choose|j: int|
                0 <= j < stale_steps(dir, name, items).len() && #[trigger] stale_steps(
                    dir,
                    name,
                    items,
                )[j] == (e.0, in_dir(dir, e.0), e.1 == ItemKind::File);
            assert(steps[j].0 == e.0 && steps[j].2);
        } else if e.1 == ItemKind::File {
            assert forall|j: int| 0 <= j < steps.len() && #[trigger] steps[j].0 == e.0 implies !steps[j].2 by {
                assert(is_stale(dir, name, steps[j].0));
            }
        }
    }
    lemma_filter_agree(items, kept, sweep);
}

/// What to do to the install directory before the archive is written.
pub struct CleanupPlan {
    /// The stale versions found, in listing order (none where old versions
    /// are kept).
    pub stale: Vec<StaleMatch>,
    /// The path the new archive is written to.
    pub output_path: String,
    /// What still stands at `output_path` once the stale versions are gone,
    /// and is to be removed: a file, a directory, or something else that is
    /// only reported.
    pub existing_output: Option<ItemKind>,
}

/// Plans the cleanup of `target_dir`, whose entries are `listing`, before the
/// archive of `info` is written there. Old versions are looked for unless
/// `keep_old_versions`; fails only where glob refuses the pattern.
pub fn plan_cleanup(
    target_dir: &str,
    info: &InfoJson,
    keep_old_versions: bool,
    listing: &Vec<DirItem>,
) -> (r: Result<CleanupPlan, CleanupError>)
    ensures
        r is Err <==> !keep_old_versions && !glob_compiles(
            stale_glob(target_dir@, info.name@),
        ),
        r is Err ==> r == Err::<CleanupPlan, CleanupError>(CleanupError::BadPattern),
        r is Ok ==> {
            let plan = r->Ok_0;
            let zip = zip_name(qualified_name(info.name@, info.version@));
            &&& matches_view(plan.stale@) == if keep_old_versions {
                Seq::empty()
            } else {
                stale_steps(target_dir@, info.name@, items_view(listing@))
            }
            &&& plan.output_path@ == joined(target_dir@, zip)
            &&& plan.existing_output == output_kind(
                target_dir@,
                info.name@,
                keep_old_versions,
                zip,
                items_view(listing@),
            )
            &&& carry_out(items_view(listing@), matches_view(plan.stale@), zip) == after_run(
                target_dir@,
                info.name@,
                info.version@,
                keep_old_versions,
                items_view(listing@),
            )
        },
{
    let ghost items = items_view(listing@);
    let mut pattern: Option<GlobPattern> = None;
    let mut stale: Vec<StaleMatch> = Vec::new();
    if !keep_old_versions {
        match compile_glob(make_glob_str(target_dir, info.name.as_str())) {
            Ok(p) => {
                stale = find_stale(&p, target_dir, info.name.as_str(), listing);
                pattern = Some(p);
            },
            Err(_) => return Err(CleanupError::BadPattern),
        }
    }
    proof {
        assert(matches_view(Seq::<StaleMatch>::empty()) =~= Seq::empty());
    }
    let zip = info.zip_file_name();
    let output_path = join_path(target_dir, zip.as_str());
    let ghost zv = zip@;
    let mut existing_output: Option<ItemKind> = None;
    let mut i: usize = 0;
    proof {
        assert(items.subrange(0, items.len() as int) =~= items);
    }
    while i < listing.len() && existing_output.is_none()
        invariant
            0 <= i <= listing.len(),
            items == items_view(listing@),
            zv == zip@,
            keep_old_versions <==> pattern is None,
            pattern is Some ==> pattern->Some_0.text() == stale_glob(target_dir@, info.name@),
            matches_view(stale@) == if keep_old_versions {
                Seq::empty()
            } else {
                stale_steps(target_dir@, info.name@, items)
            },
            existing_output is None ==> output_kind(
                target_dir@,
                info.name@,
                keep_old_versions,
                zv,
                items,
            ) == output_kind(
                target_dir@,
                info.name@,
                keep_old_versions,
                zv,
                items.subrange(i as int, items.len() as int),
            ),
            existing_output is Some ==> existing_output == output_kind(
                target_dir@,
                info.name@,
                keep_old_versions,
                zv,
                items,
            ),
        decreases listing.len() - i,
    {
        let ghost rest = items.subrange(i as int, items.len() as int);
        proof {
            assert(rest[0] == listing@[i as int]@);
            assert(rest.drop_first() =~= items.subrange(i + 1, items.len() as int));
        }
        let item = &listing[i];
        if item.name == zip {
            let gone = match &pattern {
                Some(p) => {
                    if item.kind == ItemKind::File {
                        let path = in_dir_path(target_dir, item.name.as_str());
                        glob_match(p, path.as_str())
                    } else {
                        false
                    }
                },
                None => false,
            };
            if !gone {
                proof {
                    assert(!removed_as_stale(target_dir@, info.name@, keep_old_versions, rest[0]));
                }
                existing_output = Some(item.kind);
            }
        }
        i += 1;
    }
    proof {
        if existing_output is None {
            assert(items.subrange(i as int, items.len() as int).len() == 0);
        }
    }
    proof {
        lemma_plan_carries_out_run(
            target_dir@,
            info.name@,
            info.version@,
            keep_old_versions,
            items,
        );
    }
    Ok(CleanupPlan { stale, output_path, existing_output })
}

proof fn lemma_filter_keeps_all<A>(s: Seq<A>, p: spec_fn(A) -> bool)
    requires
        forall|i: int| 0 <= i < s.len() ==> p(s[i]),
    ensures
        s.filter(p) == s,
    decreases s.len(),
{
    reveal(Seq::filter);
    if s.len() > 0 {
        lemma_filter_keeps_all(s.drop_last(), p);
        assert(s.drop_last().push(s.last()) =~= s);
    }
}

proof fn lemma_filter_drops_all<A>(s: Seq<A>, p: spec_fn(A) -> bool)
    requires
        forall|i: int| 0 <= i < s.len() ==> !p(s[i]),
    ensures
        s.filter(p) == Seq::<A>::empty(),
    decreases s.len(),
{
    reveal(Seq::filter);
    if s.len() > 0 {
        lemma_filter_drops_all(s.drop_last(), p);
    }
}

/// Running the packer twice in a row leaves the install directory as one run
/// does, and after a run exactly one entry bears the archive's name: the new
/// archive, a regular file. (`plan_cleanup` ensures that carrying out its
/// plan gives `after_run`.)
pub proof fn lemma_run_idempotent(
    dir: Seq<char>,
    name: Seq<char>,
    version: Seq<char>,
    keep_old: bool,
    items: Seq<(Seq<char>, ItemKind)>,
)
    ensures
        after_run(dir, name, version, keep_old, after_run(dir, name, version, keep_old, items))
            == after_run(dir, name, version, keep_old, items),
        after_run(dir, name, version, keep_old, items).filter(
            named(zip_name(qualified_name(name, version))),
        ) == seq![(zip_name(qualified_name(name, version)), ItemKind::File)],
{
    let zip = zip_name(qualified_name(name, version));
    let sweep = survives_sweep(dir, name, keep_old);
    let other = named_otherwise(zip);
    let z = (zip, ItemKind::File);
    let a = items.filter(sweep).filter(other);
    broadcast use Seq::lemma_filter_pred;

    let swept = items.filter(sweep);
    assert forall|i: int| 0 <= i < a.len() implies sweep(a[i]) && other(a[i]) by {
        swept.lemma_filter_pred(other, i);
        assert(a.contains(a[i]));
        swept.lemma_filter_contains_rev(other, a[i]);
        let j = choose|j: int| 0 <= j < swept.len() && swept[j] == a[i];
        items.lemma_filter_pred(sweep, j);
    }
    // the second run
    a.lemma_filter_push(z, sweep);
    lemma_filter_keeps_all(a, sweep);
    lemma_filter_keeps_all(a, other);
    a.lemma_filter_push(z, other);
    // the one entry named like the archive
    a.lemma_filter_push(z, named(zip));
    lemma_filter_drops_all(a, named(zip));
    assert(Seq::<(Seq<char>, ItemKind)>::empty().push(z) =~= seq![z]);
}

} // verus!
