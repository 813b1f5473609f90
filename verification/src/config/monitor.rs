//! Watching the configuration files for changes.

use crate::text::{contains_text, is_not_after, same_text};
use crate::wide::text_of_utf16;
use std::collections::hash_map::DefaultHasher;
use std::hash::Hasher;
use vstd::prelude::*;
use vstd::relations::{sorted_by, total_ordering};
use vstd::std_specs::hash::DefaultHasherAdditionalSpecFns;
use vstd::string::*;

verus! {

broadcast use {vstd::string::group_string_axioms, vstd::seq_lib::group_to_multiset_ensures};

/// Files that are watched at most.
pub const MAX_PATHS: usize = 1024;

/// The order of paths.
pub open spec fn path_order() -> spec_fn(Seq<char>, Seq<char>) -> bool {
    |first: Seq<char>, second: Seq<char>| crate::text::not_after(first, second)
}

proof fn order_is_reflexive(a: Seq<char>)
    ensures
        crate::text::not_after(a, a),
    decreases a.len(),
{
    if a.len() > 0 {
        order_is_reflexive(crate::text::without_first(a, 1));
    }
}

proof fn order_is_antisymmetric(a: Seq<char>, b: Seq<char>)
    requires
        crate::text::not_after(a, b),
        crate::text::not_after(b, a),
    ensures
        a == b,
    decreases a.len(),
{
    if a.len() > 0 && b.len() > 0 {
        order_is_antisymmetric(crate::text::without_first(a, 1), crate::text::without_first(b, 1));
        assert forall|i: int| 0 <= i < a.len() implies a[i] == b[i] by {
            if i > 0 {
                assert(crate::text::without_first(a, 1)[i - 1] == a[i]);
                assert(crate::text::without_first(b, 1)[i - 1] == b[i]);
            }
        }
        assert(crate::text::without_first(a, 1).len() == a.len() - 1);
        assert(crate::text::without_first(b, 1).len() == b.len() - 1);
    }
    assert(a =~= b);
}

proof fn order_is_transitive(a: Seq<char>, b: Seq<char>, c: Seq<char>)
    requires
        crate::text::not_after(a, b),
        crate::text::not_after(b, c),
    ensures
        crate::text::not_after(a, c),
    decreases a.len(),
{
    if a.len() > 0 && a[0] == b[0] && b[0] == c[0] {
        order_is_transitive(
            crate::text::without_first(a, 1),
            crate::text::without_first(b, 1),
            crate::text::without_first(c, 1),
        );
    }
}

proof fn order_is_total(a: Seq<char>, b: Seq<char>)
    ensures
        crate::text::not_after(a, b) || crate::text::not_after(b, a),
    decreases a.len(),
{
    if a.len() > 0 && b.len() > 0 && a[0] == b[0] {
        order_is_total(crate::text::without_first(a, 1), crate::text::without_first(b, 1));
    }
}

/// Any two paths can be put in order.
pub proof fn paths_are_ordered()
    ensures
        total_ordering(path_order()),
{
    let order = path_order();
    assert forall|a: Seq<char>| #[trigger] order(a, a) by {
        order_is_reflexive(a);
    }
    assert forall|a: Seq<char>, b: Seq<char>| #[trigger]
        order(a, b) && #[trigger] order(b, a) implies a == b by {
        order_is_antisymmetric(a, b);
    }
    assert forall|a: Seq<char>, b: Seq<char>, c: Seq<char>| #[trigger]
        order(a, b) && #[trigger] order(b, c) implies order(a, c) by {
        order_is_transitive(a, b, c);
    }
    assert forall|a: Seq<char>, b: Seq<char>| #[trigger] order(a, b) || #[trigger] order(b, a) by {
        order_is_total(a, b);
    }
}

/// Put paths in order.
fn sort_paths(paths: &Vec<String>) -> (sorted: Vec<String>)
    ensures
        crate::text::texts(sorted@) == crate::text::texts(paths@).sort_by(path_order()),
{
    let ghost all = crate::text::texts(paths@);
    let ghost order = path_order();
    let mut sorted: Vec<String> = Vec::new();
    let mut index: usize = 0;
    proof {
        paths_are_ordered();
        assert(crate::text::texts(sorted@) =~= all.take(0));
    }
    while index < paths.len()
        invariant
            index <= paths@.len(),
            all == crate::text::texts(paths@),
            order == path_order(),
            total_ordering(order),
            sorted_by(crate::text::texts(sorted@), order),
            crate::text::texts(sorted@).to_multiset() == all.take(index as int).to_multiset(),
        decreases paths@.len() - index,
    {
        let ghost before = crate::text::texts(sorted@);
        let ghost path = paths@[index as int]@;
        let mut position: usize = 0;
        while position < sorted.len() && is_not_after(
            sorted[position].as_str(),
            paths[index].as_str(),
        )
            invariant
                index < paths@.len(),
                path == paths@[index as int]@,
                before == crate::text::texts(sorted@),
                position <= sorted@.len(),
                forall|k: int|
                    0 <= k < position ==> crate::text::not_after(#[trigger] before[k], path),
            decreases sorted@.len() - position,
        {
            assert(before[position as int] == sorted@[position as int]@);
            position += 1;
        }
        sorted.insert(position, paths[index].clone());
        proof {
            let after = crate::text::texts(sorted@);
            assert(after =~= before.insert(position as int, path));
            vstd::seq_lib::to_multiset_insert(before, position as int, path);
            assert(all.take(index + 1) =~= all.take(index as int).push(path));
            assert forall|i: int, j: int| 0 <= i < j < after.len() implies #[trigger] order(
                after[i],
                after[j],
            ) by {
                if j == position {
                    assert(after[i] == before[i]);
                    assert(crate::text::not_after(before[i], path));
                } else if i == position {
                    assert(after[j] == before[j - 1]);
                    assert(before[position as int] == sorted@[position + 1]@);
                    assert(order(before[position as int], path) || order(
                        path,
                        before[position as int],
                    ));
                    if j - 1 > position {
                        assert(order(before[position as int], before[j - 1]));
                    }
                } else {
                    let a = if i < position {
                        i
                    } else {
                        i - 1
                    };
                    let b = if j < position {
                        j
                    } else {
                        j - 1
                    };
                    assert(order(before[a], before[b]));
                }
            }
        }
        index += 1;
    }
    proof {
        assert(all.take(index as int) =~= all);
        all.lemma_sort_by_ensures(order);
        vstd::seq_lib::lemma_sorted_unique(
            crate::text::texts(sorted@),
            all.sort_by(order),
            order,
        );
    }
    sorted
}

/// What is hashed for the first `count` paths: the bytes of each, and what separates it from the
/// next.
pub open spec fn hashed(paths: Seq<Seq<char>>, count: int) -> Seq<Seq<u8>>
    decreases count,
{
    if count <= 0 {
        Seq::empty()
    } else {
        hashed(paths, count - 1).push(vstd::utf8::encode_utf8(paths[count - 1])).push(seq![255u8])
    }
}

/// The hash of a list of paths; none for a list that is too long.
pub open spec fn paths_hash(paths: Seq<Seq<char>>) -> Option<u64> {
    if paths.len() > MAX_PATHS {
        None
    } else {
        let sorted = paths.sort_by(path_order());
        Some(DefaultHasher::spec_finish(hashed(sorted, sorted.len() as int)))
    }
}

/// Generate the hash for a list of paths, regardless of their order. Paths are compared as texts, so
/// each is expected in the form that its components have when they are joined: without repeated or
/// trailing separators and without `.` components.
pub fn hash_paths(files: &Vec<String>) -> (hash: Option<u64>)
    ensures
        hash == paths_hash(crate::text::texts(files@)),
{
    if files.len() > MAX_PATHS {
        return None;
    }
    // Sort files to avoid restart on order change.
    let sorted = sort_paths(files);
    let ghost all = crate::text::texts(sorted@);
    let mut hasher = DefaultHasher::new();
    let separator: [u8; 1] = [255];
    let mut index: usize = 0;
    while index < sorted.len()
        invariant
            index <= sorted@.len(),
            all == crate::text::texts(sorted@),
            separator@ =~= seq![255u8],
            hasher@ == hashed(all, index as int),
        decreases sorted@.len() - index,
    {
        assert(all[index as int] == sorted@[index as int]@);
        hasher.write(sorted[index].as_str().as_bytes());
        hasher.write(separator.as_slice());
        index += 1;
    }
    Some(hasher.finish())
}

/// The same files in another order have the same hash.
pub proof fn order_of_paths_does_not_matter(first: Seq<Seq<char>>, second: Seq<Seq<char>>)
    requires
        first.to_multiset() == second.to_multiset(),
    ensures
        paths_hash(first) == paths_hash(second),
{
    let order = path_order();
    paths_are_ordered();
    first.lemma_sort_by_ensures(order);
    second.lemma_sort_by_ensures(order);
    vstd::seq_lib::lemma_sorted_unique(first.sort_by(order), second.sort_by(order), order);
    assert(first.len() == first.to_multiset().len());
    assert(second.len() == second.to_multiset().len());
}

/// A configuration file, and what the file system says about it.
#[derive(Debug)]
pub struct FoundPath {
    /// The path, in the form that its components have when they are joined: without repeated or
    /// trailing separators and without `.` components. Paths are compared as texts.
    pub path: String,
    /// Whether it is a regular file, once symbolic links are followed.
    pub is_file: bool,
    /// The path without symbolic links, if there is one.
    pub canonical: Option<String>,
    /// Whether the path itself is a symbolic link.
    pub is_symlink: bool,
}

/// The paths that take the place of the first `count` regular files: those without symbolic links,
/// except for links themselves.
pub open spec fn base_paths(found: Seq<FoundPath>, count: int) -> Seq<Seq<char>>
    decreases count,
{
    if count <= 0 {
        Seq::empty()
    } else if !found[count - 1].is_file {
        base_paths(found, count - 1)
    } else {
        base_paths(found, count - 1).push(
            match found[count - 1].canonical {
                Some(canonical) if !found[count - 1].is_symlink => canonical@,
                _ => found[count - 1].path@,
            },
        )
    }
}

/// What the symbolic links among the first `count` regular files lead to.
pub open spec fn link_targets(found: Seq<FoundPath>, count: int) -> Seq<Seq<char>>
    decreases count,
{
    if count <= 0 {
        Seq::empty()
    } else {
        match found[count - 1].canonical {
            Some(canonical) if found[count - 1].is_file && found[count - 1].is_symlink =>
                link_targets(found, count - 1).push(canonical@),
            _ => link_targets(found, count - 1),
        }
    }
}

/// The paths to watch: regular files, without char devices, sockets and so on. Links are watched
/// together with what they lead to.
pub fn watched_paths(found: &Vec<FoundPath>) -> (paths: Vec<String>)
    ensures
        crate::text::texts(paths@) == base_paths(found@, found@.len() as int) + link_targets(
            found@,
            found@.len() as int,
        ),
{
    let mut paths: Vec<String> = Vec::new();
    let mut targets: Vec<String> = Vec::new();
    let mut index: usize = 0;
    assert(crate::text::texts(paths@) =~= base_paths(found@, 0));
    assert(crate::text::texts(targets@) =~= link_targets(found@, 0));
    while index < found.len()
        invariant
            index <= found@.len(),
            crate::text::texts(paths@) == base_paths(found@, index as int),
            crate::text::texts(targets@) == link_targets(found@, index as int),
        decreases found@.len() - index,
    {
        let ghost before = crate::text::texts(paths@);
        let ghost earlier = crate::text::texts(targets@);
        let file = &found[index];
        if file.is_file {
            match &file.canonical {
                Some(canonical) if !file.is_symlink => {
                    paths.push(canonical.clone());
                    assert(crate::text::texts(paths@) =~= before.push(canonical@));
                },
                Some(canonical) => {
                    paths.push(file.path.clone());
                    targets.push(canonical.clone());
                    assert(crate::text::texts(paths@) =~= before.push(file.path@));
                    assert(crate::text::texts(targets@) =~= earlier.push(canonical@));
                },
                None => {
                    paths.push(file.path.clone());
                    assert(crate::text::texts(paths@) =~= before.push(file.path@));
                },
            }
        }
        index += 1;
    }
    let ghost own = paths@;
    let ghost links = targets@;
    paths.append(&mut targets);
    assert(crate::text::texts(paths@) =~= crate::text::texts(own) + crate::text::texts(links));
    paths
}

/// What is watched, and what was asked to be.
#[derive(Debug)]
pub struct ConfigMonitor {
    pub paths: Vec<String>,
    pub watched_hash: Option<u64>,
}

impl ConfigMonitor {
    /// A monitor for the files that are found, unless there is nothing to watch.
    pub fn new(found: &Vec<FoundPath>) -> (monitor: Option<ConfigMonitor>)
        ensures
            ({
                let base = base_paths(found@, found@.len() as int);
                let asked = found@.map_values(|file: FoundPath| file.path@);
                if base.len() == 0 {
                    monitor is None
                } else {
                    &&& monitor matches Some(monitor)
                    &&& crate::text::texts(monitor.paths@) == base + link_targets(
                        found@,
                        found@.len() as int,
                    )
                    &&& monitor.watched_hash == paths_hash(asked)
                }
            }),
    {
        let ghost asked = found@.map_values(|file: FoundPath| file.path@);
        // Calculate the hash for the unmodified list of paths.
        let mut given: Vec<String> = Vec::new();
        let mut index: usize = 0;
        while index < found.len()
            invariant
                index <= found@.len(),
                asked == found@.map_values(|file: FoundPath| file.path@),
                crate::text::texts(given@) =~= asked.take(index as int),
            decreases found@.len() - index,
        {
            let ghost before = crate::text::texts(given@);
            given.push(found[index].path.clone());
            assert(crate::text::texts(given@) =~= before.push(asked[index as int]));
            index += 1;
        }
        assert(asked.take(index as int) =~= asked);
        let watched_hash = hash_paths(&given);
        let paths = watched_paths(found);
        proof {
            links_need_files(found@, found@.len() as int);
            assert(crate::text::texts(paths@).len() == paths@.len());
        }
        if paths.len() == 0 {
            return None;
        }
        Some(ConfigMonitor { paths, watched_hash })
    }

    /// Whether the monitor is restarted for a list of files.
    pub open spec fn restarts_for(self, files: Seq<Seq<char>>) -> bool {
        paths_hash(files) is None || paths_hash(files) != self.watched_hash
    }

    /// Check if the config monitor needs to be restarted.
    ///
    /// This checks the supplied list of files against the monitored files to determine if a
    /// restart is necessary: it is where the files are not the same, or too many to tell.
    pub fn needs_restart(&self, files: &Vec<String>) -> (restart: bool)
        ensures
            restart == self.restarts_for(crate::text::texts(files@)),
    {
        match hash_paths(files) {
            None => true,
            Some(hash) => match self.watched_hash {
                Some(watched) => hash != watched,
                None => true,
            },
        }
    }
}

proof fn links_need_files(found: Seq<FoundPath>, count: int)
    requires
        0 <= count <= found.len(),
    ensures
        base_paths(found, count).len() == 0 ==> link_targets(found, count).len() == 0,
    decreases count,
{
    if count > 0 {
        links_need_files(found, count - 1);
    }
}

/// A monitor is not restarted for the files that it was made for, in whatever order they come.
pub proof fn same_files_need_no_restart(
    asked: Seq<Seq<char>>,
    files: Seq<Seq<char>>,
    monitor: ConfigMonitor,
)
    requires
        monitor.watched_hash == paths_hash(asked),
        asked.len() <= MAX_PATHS,
        files.to_multiset() == asked.to_multiset(),
    ensures
        !monitor.restarts_for(files),
{
    order_of_paths_does_not_matter(asked, files);
}

/// A text in lower case.
pub uninterp spec fn lowercase(text: Seq<char>) -> Seq<char>;

/// `str::to_lowercase`: a text in lower case. It depends on the text alone.
#[verifier::external_body]
pub(crate) fn to_lowercase(text: &str) -> (lower: String)
    ensures
        lower@ == lowercase(text@),
{
    text.to_lowercase()
}

/// A path in its directory.
#[derive(Debug)]
pub struct WatchedPath {
    pub path: String,
    /// The directory, if there is one.
    pub parent: Option<String>,
    /// The name within the directory, if there is one.
    pub file_name: Option<String>,
}

/// A directory and the names of the files that are watched in it, in lower case.
#[derive(Debug)]
pub struct WatchedDirectory {
    pub path: String,
    pub file_names: Vec<String>,
}

/// Directories with the names of the files that are watched in them.
pub open spec fn directory_names(directories: Seq<WatchedDirectory>) -> Seq<
    (Seq<char>, Seq<Seq<char>>),
> {
    directories.map_values(
        |directory: WatchedDirectory|
            (directory.path@, crate::text::texts(directory.file_names@)),
    )
}

/// The position of a directory, from `from` on.
pub open spec fn directory_at(
    directories: Seq<(Seq<char>, Seq<Seq<char>>)>,
    path: Seq<char>,
    from: int,
) -> Option<int>
    decreases directories.len() - from,
{
    if from < 0 || from >= directories.len() {
        None
    } else if directories[from].0 == path {
        Some(from)
    } else {
        directory_at(directories, path, from + 1)
    }
}

/// The directories with another name, unless it is there already.
pub open spec fn with_name(
    directories: Seq<(Seq<char>, Seq<Seq<char>>)>,
    path: Seq<char>,
    name: Seq<char>,
) -> Seq<(Seq<char>, Seq<Seq<char>>)> {
    match directory_at(directories, path, 0) {
        Some(at) => if directories[at].1.contains(name) {
            directories
        } else {
            directories.update(at, (path, directories[at].1.push(name)))
        },
        None => directories.push((path, seq![name])),
    }
}

/// The directories of the first `count` paths. Paths without a directory or a name have none.
pub open spec fn grouped(paths: Seq<WatchedPath>, count: int) -> Seq<(Seq<char>, Seq<Seq<char>>)>
    decreases count,
{
    if count <= 0 {
        Seq::empty()
    } else {
        match (paths[count - 1].parent, paths[count - 1].file_name) {
            (Some(parent), Some(name)) => with_name(
                grouped(paths, count - 1),
                parent@,
                lowercase(name@),
            ),
            _ => grouped(paths, count - 1),
        }
    }
}

/// Whether a name is watched in a directory.
pub open spec fn watches(
    directories: Seq<(Seq<char>, Seq<Seq<char>>)>,
    path: Seq<char>,
    name: Seq<char>,
) -> bool {
    exists|d: int|
        0 <= d < directories.len() && (#[trigger] directories[d]).0 == path
            && directories[d].1.contains(name)
}

/// Whether no directory is listed twice.
pub open spec fn are_distinct(directories: Seq<(Seq<char>, Seq<Seq<char>>)>) -> bool {
    forall|d: int, e: int|
        0 <= d < e < directories.len() ==> (#[trigger] directories[d]).0 != (
        #[trigger] directories[e]).0
}

proof fn directory_is_found(
    directories: Seq<(Seq<char>, Seq<Seq<char>>)>,
    path: Seq<char>,
    from: int,
)
    requires
        0 <= from <= directories.len(),
    ensures
        match directory_at(directories, path, from) {
            Some(at) => from <= at < directories.len() && directories[at].0 == path,
            None => forall|d: int|
                from <= d < directories.len() ==> (#[trigger] directories[d]).0 != path,
        },
    decreases directories.len() - from,
{
    if from < directories.len() && directories[from].0 != path {
        directory_is_found(directories, path, from + 1);
    }
}

proof fn name_is_added(
    directories: Seq<(Seq<char>, Seq<Seq<char>>)>,
    path: Seq<char>,
    name: Seq<char>,
)
    requires
        are_distinct(directories),
    ensures
        are_distinct(with_name(directories, path, name)),
        watches(with_name(directories, path, name), path, name),
        forall|other: Seq<char>, file: Seq<char>| #[trigger]
            watches(directories, other, file) ==> watches(
                with_name(directories, path, name),
                other,
                file,
            ),
{
    let after = with_name(directories, path, name);
    directory_is_found(directories, path, 0);
    match directory_at(directories, path, 0) {
        Some(at) => {
            assert(after[at].0 == path);
            if !directories[at].1.contains(name) {
                assert(after[at].1 == directories[at].1.push(name));
                assert(after[at].1[directories[at].1.len() as int] == name);
            }
            assert(after[at].1.contains(name));
            assert forall|other: Seq<char>, file: Seq<char>| #[trigger]
                watches(directories, other, file) implies watches(after, other, file) by {
                let d = choose|d: int|
                    0 <= d < directories.len() && (#[trigger] directories[d]).0 == other
                        && directories[d].1.contains(file);
                if d == at && !directories[at].1.contains(name) {
                    let i = choose|i: int|
                        0 <= i < directories[d].1.len() && directories[d].1[i] == file;
                    assert(after[d].1[i] == file);
                }
                assert(after[d].0 == other && after[d].1.contains(file));
            }
        },
        None => {
            let last = directories.len() as int;
            assert(after[last].0 == path);
            assert(after[last].1[0] == name);
            assert(after[last].1.contains(name));
            assert forall|other: Seq<char>, file: Seq<char>| #[trigger]
                watches(directories, other, file) implies watches(after, other, file) by {
                let d = choose|d: int|
                    0 <= d < directories.len() && (#[trigger] directories[d]).0 == other
                        && directories[d].1.contains(file);
                assert(after[d] == directories[d]);
            }
        },
    }
}

/// Every file is watched in its directory, and no directory is listed twice.
pub proof fn every_file_is_watched(paths: Seq<WatchedPath>, count: int)
    requires
        0 <= count <= paths.len(),
    ensures
        are_distinct(grouped(paths, count)),
        forall|i: int|
            0 <= i < count && (#[trigger] paths[i]).parent is Some && paths[i].file_name is Some
                ==> watches(
                grouped(paths, count),
                paths[i].parent->0@,
                lowercase(paths[i].file_name->0@),
            ),
    decreases count,
{
    if count > 0 {
        every_file_is_watched(paths, count - 1);
        if let (Some(parent), Some(name)) = (paths[count - 1].parent, paths[count - 1].file_name) {
            name_is_added(grouped(paths, count - 1), parent@, lowercase(name@));
        }
    }
}

/// What is watched: the directories of all files, and the file that is reloaded on a change.
#[derive(Debug)]
pub struct WatchTarget {
    pub primary: String,
    pub directories: Vec<WatchedDirectory>,
}

/// Add a name to its directory.
fn add_name(directories: &mut Vec<WatchedDirectory>, path: &str, name: String)
    ensures
        directory_names(final(directories)@) == with_name(
            directory_names(old(directories)@),
            path@,
            name@,
        ),
{
    let ghost before = directory_names(directories@);
    let mut index: usize = 0;
    while index < directories.len()
        invariant
            index <= directories@.len(),
            directories@ == old(directories)@,
            before == directory_names(directories@),
            directory_at(before, path@, 0) == directory_at(before, path@, index as int),
        decreases directories@.len() - index,
    {
        assert(before[index as int].0 == directories@[index as int].path@);
        if same_text(directories[index].path.as_str(), path) {
            assert(directory_at(before, path@, index as int) == Some(index as int));
            assert(before[index as int].1 == crate::text::texts(
                directories@[index as int].file_names@,
            ));
            if !contains_text(&directories[index].file_names, name.as_str()) {
                let ghost names = directories@[index as int].file_names@;
                directories[index].file_names.push(name);
                proof {
                    let after = directory_names(directories@);
                    assert(crate::text::texts(directories@[index as int].file_names@)
                        =~= crate::text::texts(names).push(name@));
                    assert(after =~= before.update(
                        index as int,
                        (path@, before[index as int].1.push(name@)),
                    ));
                }
            }
            return;
        }
        index += 1;
    }
    let mut file_names: Vec<String> = Vec::new();
    file_names.push(name);
    assert(crate::text::texts(file_names@) =~= seq![name@]);
    directories.push(WatchedDirectory { path: path.to_owned(), file_names });
    assert(directory_names(directories@) =~= before.push((path@, seq![name@])));
}

impl WatchTarget {
    /// Group files by their directories; there is no target where there is nothing to watch.
    pub fn new(paths: &Vec<WatchedPath>) -> (target: Option<WatchTarget>)
        ensures
            if grouped(paths@, paths@.len() as int).len() == 0 {
                target is None
            } else {
                &&& target matches Some(target)
                &&& target.primary@ == paths@[0].path@
                &&& directory_names(target.directories@) == grouped(paths@, paths@.len() as int)
            },
    {
        let mut directories: Vec<WatchedDirectory> = Vec::new();
        let mut index: usize = 0;
        assert(directory_names(directories@) =~= grouped(paths@, 0));
        while index < paths.len()
            invariant
                index <= paths@.len(),
                directory_names(directories@) == grouped(paths@, index as int),
            decreases paths@.len() - index,
        {
            let path = &paths[index];
            index += 1;
            if let (Some(parent), Some(name)) = (&path.parent, &path.file_name) {
                let name = normalized_file_name(name.as_str());
                add_name(&mut directories, parent.as_str(), name);
            }
        }
        if directories.len() == 0 {
            assert(directory_names(directories@).len() == 0);
            return None;
        }
        assert(directory_names(directories@).len() > 0);
        Some(WatchTarget { primary: paths[0].path.clone(), directories })
    }
}

/// A file name, such that names that differ in case only are the same.
pub fn normalized_file_name(name: &str) -> (normalized: String)
    ensures
        normalized@ == lowercase(name@),
{
    to_lowercase(name)
}

/// The bytes of a change notification before its name.
pub const NOTIFY_HEADER_SIZE: usize = 12;

/// The bytes of the smallest change notification.
pub const NOTIFY_SIZE: usize = 16;

/// The number that four bytes are, the least significant one first.
pub open spec fn number_at(buffer: Seq<u8>, at: int) -> int {
    buffer[at] + buffer[at + 1] * 0x100 + buffer[at + 2] * 0x1_0000 + buffer[at + 3] * 0x100_0000
}

/// The UTF-16 code units in some bytes, the less significant byte first.
pub open spec fn units_at(buffer: Seq<u8>, at: int, count: int) -> Seq<u16>
    decreases count,
{
    if count <= 0 {
        Seq::empty()
    } else {
        units_at(buffer, at, count - 1).push(
            (buffer[at + 2 * (count - 1)] + buffer[at + 2 * (count - 1) + 1] * 0x100) as u16,
        )
    }
}

/// Whether one of the change notifications from `offset` on is about one of the names. A
/// notification holds the distance to the next one, an action, the length of its name in bytes,
/// and the name. One whose name does not lie within the buffer ends the search.
pub open spec fn notifies(buffer: Seq<u8>, bytes: int, offset: int, names: Seq<Seq<char>>) -> bool
    decreases bytes - offset,
{
    if offset < 0 || offset + NOTIFY_SIZE > bytes || bytes > buffer.len() {
        false
    } else {
        let next = number_at(buffer, offset);
        let units = number_at(buffer, offset + 8) / 2;
        if offset + NOTIFY_HEADER_SIZE + 2 * units > buffer.len() {
            false
        } else if names.contains(
            lowercase(crate::wide::utf16_text(units_at(buffer, offset + NOTIFY_HEADER_SIZE, units))),
        ) {
            true
        } else if next <= 0 || offset + next > bytes {
            false
        } else {
            notifies(buffer, bytes, offset + next, names)
        }
    }
}

/// Whether the configuration is reloaded after some bytes of change notifications have been read, if
/// they could be: no bytes at all mean that there were too many changes to list.
pub open spec fn reloads(buffer: Seq<u8>, bytes: Option<u32>, names: Seq<Seq<char>>) -> bool {
    match bytes {
        Some(bytes) => bytes == 0 || notifies(buffer, bytes as int, 0, names),
        None => false,
    }
}

/// The number that four bytes are.
fn read_number(buffer: &Vec<u8>, at: usize) -> (number: usize)
    requires
        at + 4 <= buffer@.len(),
    ensures
        number == number_at(buffer@, at as int),
        number <= u32::MAX,
{
    let count: usize = buffer.len();
    assert(at + 4 <= count);
    let number: u32 = buffer[at] as u32 + buffer[at + 1] as u32 * 0x100 + buffer[at + 2] as u32
        * 0x1_0000 + buffer[at + 3] as u32 * 0x100_0000;
    number as usize
}

/// Whether one of the change notifications in the first `bytes` bytes of a buffer is about a file
/// that is watched. No bytes at all mean that there were too many changes to list.
pub fn contains_watched_file(buffer: &Vec<u8>, bytes: u32, file_names: &Vec<String>) -> (found: bool)
    requires
        bytes <= buffer@.len(),
    ensures
        found == reloads(buffer@, Some(bytes), crate::text::texts(file_names@)),
{
    if bytes == 0 {
        return true;
    }
    let total: usize = bytes as usize;
    let count: usize = buffer.len();
    let ghost names = crate::text::texts(file_names@);
    let mut offset: usize = 0;
    while offset <= total && total - offset >= NOTIFY_SIZE
        invariant
            total == bytes,
            total <= count,
            count == buffer@.len(),
            names == crate::text::texts(file_names@),
            notifies(buffer@, bytes as int, 0, names) == notifies(
                buffer@,
                bytes as int,
                offset as int,
                names,
            ),
        decreases total - offset,
    {
        let next: usize = read_number(buffer, offset);
        let units: usize = read_number(buffer, offset + 8) / 2;
        let start: usize = offset + NOTIFY_HEADER_SIZE;
        if units > (count - start) / 2 {
            return false;
        }
        let mut name: Vec<u16> = Vec::new();
        let mut index: usize = 0;
        while index < units
            invariant
                index <= units,
                start + 2 * units <= count,
                count == buffer@.len(),
                name@ == units_at(buffer@, start as int, index as int),
            decreases units - index,
        {
            let low: u16 = buffer[start + 2 * index] as u16;
            let high: u16 = buffer[start + 2 * index + 1] as u16;
            name.push(low + high * 0x100);
            index += 1;
        }
        let text = text_of_utf16(name.as_slice());
        let lower = to_lowercase(text.as_str());
        if contains_text(file_names, lower.as_str()) {
            return true;
        }
        if next == 0 {
            return false;
        }
        if next > total - offset {
            return false;
        }
        offset += next;
    }
    false
}

/// What the watcher does after a wait.
#[derive(Clone, Copy, Debug, PartialEq, Eq, Structural)]
pub enum WatchStep {
    /// Stop watching.
    Stop,
    /// Wait again.
    Ignore,
    /// Look at the changes of a directory.
    Check { watcher: usize },
}

/// What follows a wait.
pub open spec fn wait_step(signaled: Option<usize>, watchers: usize) -> WatchStep {
    match signaled {
        None => WatchStep::Stop,
        Some(index) => if index == 0 {
            WatchStep::Stop
        } else if index - 1 < watchers {
            WatchStep::Check { watcher: (index - 1) as usize }
        } else {
            WatchStep::Ignore
        },
    }
}

/// Go on after a wait: `signaled` is what was signaled, if the wait did not fail. The shutdown is
/// number 0, the watchers follow.
pub fn after_wait(signaled: Option<usize>, watchers: usize) -> (step: WatchStep)
    ensures
        step == wait_step(signaled, watchers),
{
    match signaled {
        None => WatchStep::Stop,
        Some(index) => {
            if index == 0 {
                WatchStep::Stop
            } else if index - 1 < watchers {
                WatchStep::Check { watcher: index - 1 }
            } else {
                WatchStep::Ignore
            }
        },
    }
}

/// Whether the configuration is reloaded after the changes of a directory were read: `bytes` is how
/// many bytes were read into the buffer, if they could be.
pub fn is_reload(buffer: &Vec<u8>, bytes: Option<u32>, file_names: &Vec<String>) -> (reload: bool)
    requires
        bytes is Some ==> bytes->0 <= buffer@.len(),
    ensures
        reload == reloads(buffer@, bytes, crate::text::texts(file_names@)),
{
    match bytes {
        Some(bytes) => contains_watched_file(buffer, bytes, file_names),
        None => false,
    }
}

/// Every regular file is watched, by the path without links where it is not a link itself, and a link
/// together with what it leads to.
pub proof fn every_regular_file_is_watched(found: Seq<FoundPath>, count: int, i: int)
    requires
        0 <= i < count <= found.len(),
        found[i].is_file,
    ensures
        found[i].canonical is Some && !found[i].is_symlink ==> base_paths(found, count).contains(
            found[i].canonical->0@,
        ),
        found[i].canonical is None || found[i].is_symlink ==> base_paths(found, count).contains(
            found[i].path@,
        ),
        found[i].canonical is Some && found[i].is_symlink ==> link_targets(found, count).contains(
            found[i].canonical->0@,
        ),
    decreases count,
{
    let base = base_paths(found, count - 1);
    let links = link_targets(found, count - 1);
    let more = base_paths(found, count);
    let more_links = link_targets(found, count);
    if i < count - 1 {
        every_regular_file_is_watched(found, count - 1, i);
        let own = match found[i].canonical {
            Some(canonical) if !found[i].is_symlink => canonical@,
            _ => found[i].path@,
        };
        let k = choose|k: int| 0 <= k < base.len() && base[k] == own;
        assert(more[k] == own);
        if found[i].canonical is Some && found[i].is_symlink {
            let l = choose|l: int| 0 <= l < links.len() && links[l] == found[i].canonical->0@;
            assert(more_links[l] == found[i].canonical->0@);
        }
    } else {
        assert(more[base.len() as int] == more.last());
        if found[i].canonical is Some && found[i].is_symlink {
            assert(more_links[links.len() as int] == found[i].canonical->0@);
        }
    }
}

/// What is not a regular file is not watched: there are as many paths as regular files, and as many
/// targets as links among them.
pub proof fn only_regular_files_are_watched(found: Seq<FoundPath>, count: int)
    requires
        0 <= count <= found.len(),
        forall|i: int| 0 <= i < count ==> !(#[trigger] found[i]).is_file,
    ensures
        base_paths(found, count).len() == 0,
        link_targets(found, count).len() == 0,
    decreases count,
{
    if count > 0 {
        only_regular_files_are_watched(found, count - 1);
    }
}

/// Numbers in a change notification have their least significant byte first: what is written so is read
/// back.
pub proof fn notified_numbers_are_read_back(buffer: Seq<u8>, at: int, value: u32)
    requires
        0 <= at,
        at + 4 <= buffer.len(),
        buffer[at] == value % 0x100,
        buffer[at + 1] == value / 0x100 % 0x100,
        buffer[at + 2] == value / 0x1_0000 % 0x100,
        buffer[at + 3] == value / 0x100_0000,
    ensures
        number_at(buffer, at) == value,
{
}

/// Names in a change notification are UTF-16 with the less significant byte first: code units that are
/// written so are read back.
pub proof fn notified_names_are_read_back(buffer: Seq<u8>, at: int, units: Seq<u16>, count: int)
    requires
        0 <= at,
        0 <= count <= units.len(),
        at + 2 * units.len() <= buffer.len(),
        forall|k: int|
            0 <= k < units.len() ==> (#[trigger] units[k]) == buffer[at + 2 * k] + 0x100 * buffer[at
                + 2 * k + 1],
    ensures
        units_at(buffer, at, count) == units.take(count),
    decreases count,
{
    if count > 0 {
        notified_names_are_read_back(buffer, at, units, count - 1);
        assert(units[count - 1] == buffer[at + 2 * (count - 1)] + 0x100 * buffer[at + 2 * (count - 1)
            + 1]);
        assert(units_at(buffer, at, count) =~= units.take(count));
    } else {
        assert(units_at(buffer, at, count) =~= units.take(count));
    }
}

/// A change of a watched file is noticed wherever it stands in the list: the notifications are followed
/// from one to the next, each of which says how far away the next one is.
pub proof fn listed_changes_are_noticed(
    buffer: Seq<u8>,
    bytes: int,
    offsets: Seq<int>,
    names: Seq<Seq<char>>,
)
    requires
        bytes <= buffer.len(),
        offsets.len() > 0,
        forall|k: int|
            0 <= k < offsets.len() ==> 0 <= (#[trigger] offsets[k]) && offsets[k] + 16 <= bytes
                && offsets[k] + 12 + number_at(buffer, offsets[k] + 8) <= buffer.len(),
        forall|k: int|
            0 <= k < offsets.len() - 1 ==> offsets[k + 1] == (#[trigger] offsets[k]) + number_at(
                buffer,
                offsets[k],
            ) && number_at(buffer, offsets[k]) > 0,
        names.contains(
            lowercase(
                crate::wide::utf16_text(
                    units_at(
                        buffer,
                        offsets.last() + 12,
                        number_at(buffer, offsets.last() + 8) / 2,
                    ),
                ),
            ),
        ),
    ensures
        notifies(buffer, bytes, offsets[0], names),
    decreases offsets.len(),
{
    assert(0 <= offsets[0]);
    if offsets.len() > 1 {
        let later = offsets.drop_first();
        assert forall|k: int| 0 <= k < later.len() implies 0 <= (#[trigger] later[k]) && later[k]
            + 16 <= bytes && later[k] + 12 + number_at(buffer, later[k] + 8) <= buffer.len() by {
            assert(later[k] == offsets[k + 1]);
        }
        assert forall|k: int| 0 <= k < later.len() - 1 implies later[k + 1] == (
        #[trigger] later[k]) + number_at(buffer, later[k]) && number_at(buffer, later[k]) > 0 by {
            assert(later[k] == offsets[k + 1]);
        }
        assert(later.last() == offsets.last());
        assert(later[0] == offsets[1]);
        listed_changes_are_noticed(buffer, bytes, later, names);
    }
}

/// A list that is too long to be compared always restarts the monitor, and one that can be compared does
/// where it has another hash.
pub proof fn other_files_need_a_restart(
    asked: Seq<Seq<char>>,
    files: Seq<Seq<char>>,
    monitor: ConfigMonitor,
)
    requires
        monitor.watched_hash == paths_hash(asked),
    ensures
        files.len() > 1024 ==> monitor.restarts_for(files),
        asked.len() > 1024 ==> monitor.restarts_for(files),
        files.len() <= 1024 && asked.len() <= 1024 ==> (monitor.restarts_for(files)
            <==> paths_hash(files) != paths_hash(asked)),
{
}

/// Every path goes into the hash, in full and apart from the next one.
pub proof fn every_path_is_hashed(paths: Seq<Seq<char>>, count: int, i: int)
    requires
        0 <= i < count <= paths.len(),
    ensures
        hashed(paths, count).len() == 2 * count,
        hashed(paths, count)[2 * i] == vstd::utf8::encode_utf8(paths[i]),
        hashed(paths, count)[2 * i + 1] == seq![255u8],
    decreases count,
{
    if i < count - 1 {
        every_path_is_hashed(paths, count - 1, i);
    } else if count > 1 {
        every_path_is_hashed(paths, count - 1, 0);
    } else {
        assert(hashed(paths, 0).len() == 0);
    }
}

/// The name that the change notification at `offset` is about.
pub open spec fn notified_name(buffer: Seq<u8>, offset: int) -> Seq<char> {
    lowercase(
        crate::wide::utf16_text(
            units_at(buffer, offset + 12, number_at(buffer, offset + 8) / 2),
        ),
    )
}

/// Changes of other files go unnoticed.
pub proof fn other_changes_go_unnoticed(
    buffer: Seq<u8>,
    bytes: int,
    offset: int,
    names: Seq<Seq<char>>,
)
    requires
        forall|at: int| 0 <= at < bytes ==> !names.contains(#[trigger] notified_name(buffer, at)),
    ensures
        !notifies(buffer, bytes, offset, names),
    decreases bytes - offset,
{
    if !(offset < 0 || offset + NOTIFY_SIZE > bytes || bytes > buffer.len()) {
        assert(!names.contains(notified_name(buffer, offset)));
        let next = number_at(buffer, offset);
        if next > 0 && offset + next <= bytes {
            other_changes_go_unnoticed(buffer, bytes, offset + next, names);
        }
    }
}

/// The configuration is reloaded where a listed change is about a watched file, or where there were too
/// many changes to list them; not where the changes could not be read.
pub proof fn changes_reload_the_configuration(
    buffer: Seq<u8>,
    bytes: u32,
    names: Seq<Seq<char>>,
)
    ensures
        !reloads(buffer, None, names),
        reloads(buffer, Some(0), names),
        bytes > 0 && (forall|at: int|
            0 <= at < bytes ==> !names.contains(#[trigger] notified_name(buffer, at))) ==> !reloads(
            buffer,
            Some(bytes),
            names,
        ),
        16 <= bytes <= buffer.len() && 12 + number_at(buffer, 8) <= buffer.len() && names.contains(
            notified_name(buffer, 0),
        ) ==> reloads(buffer, Some(bytes), names),
{
    if forall|at: int| 0 <= at < bytes ==> !names.contains(#[trigger] notified_name(buffer, at)) {
        other_changes_go_unnoticed(buffer, bytes as int, 0, names);
    }
}

/// Each watcher is looked at when it is the one that was signaled; watching stops on a shutdown or where
/// waiting fails, and for nothing else.
pub proof fn signaled_watchers_are_checked(signaled: Option<usize>, watchers: usize, k: usize)
    ensures
        wait_step(signaled, watchers) is Stop <==> signaled is None || signaled == Some(0usize),
        wait_step(signaled, watchers) == (WatchStep::Check { watcher: k }) <==> k < watchers
            && signaled is Some && signaled->0 == k + 1,
        wait_step(signaled, watchers) is Ignore <==> signaled is Some && signaled->0 > watchers
            && signaled->0 > 0,
{
}

} // verus!
