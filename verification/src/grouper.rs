//! The directory grouper: after a scan, one directory row for each distinct
//! path of the audio records, and a link from each audio record to the row
//! of its path.

use crate::catalog::{audio_in, distinct_paths, Catalog, CatalogView};
use crate::entities::{audio, audio_directory, directory};
use crate::table::{ids, next_key, CatalogError};
use crate::text::{chars_of, texts};
use vstd::prelude::*;
use vstd::string::*;

verus! {

/// Where the stretch of `path` that ends at `end` begins: behind the last
/// slash before `end`, or at 0 where there is none.
pub open spec fn name_start(path: Seq<char>, end: int) -> int
    decreases end,
{
    if end <= 0 {
        0
    } else if path[end - 1] == '/' {
        end
    } else {
        name_start(path, end - 1)
    }
}

/// Where the last component of `path` before `end` lies, from its first
/// character to behind its last. The components are the stretches between
/// slashes. An empty stretch is none, and a single dot is none either,
/// unless the path begins with it.
pub open spec fn last_component(path: Seq<char>, end: int) -> Option<(int, int)>
    decreases end,
{
    if end <= 0 {
        None
    } else {
        let start = name_start(path, end);
        if start == end {
            last_component(path, end - 1)
        } else if end == start + 1 && path[start] == '.' {
            if start == 0 {
                Some((0int, 1int))
            } else {
                last_component(path, end - 2)
            }
        } else {
            Some((start, end))
        }
    }
}

/// The display name of a directory: the last component of its path. Slashes
/// at the end, repeated slashes and components that are a single dot are
/// left aside, `..` is a component like any other, and a path that begins
/// with a dot and has no other component is named by the dot. A path
/// without any component is named `/` where it begins with a slash, and is
/// empty otherwise.
pub open spec fn directory_name(path: Seq<char>) -> Seq<char> {
    match last_component(path, path.len() as int) {
        Some((start, end)) => path.subrange(start, end),
        None => if path.len() > 0 && path[0] == '/' {
            path.subrange(0, 1)
        } else {
            path
        },
    }
}

/// The display name of the directory at `path`.
pub fn display_name(path: &str) -> (name: String)
    ensures
        name@ == directory_name(path@),
{
    let chars = chars_of(path);
    let n = chars.len();
    let mut end: usize = n;
    while end > 0
        invariant
            end <= n,
            n == chars@.len(),
            chars@ == path@,
            last_component(path@, n as int) == last_component(path@, end as int),
        decreases end,
    {
        let mut start: usize = end;
        while start > 0 && chars[start - 1] != '/'
            invariant
                start <= end <= n,
                n == chars@.len(),
                chars@ == path@,
                name_start(path@, end as int) == name_start(path@, start as int),
            decreases start,
        {
            start -= 1;
        }
        if start == end {
            end = end - 1;
        } else if end - start == 1 && chars[start] == '.' {
            if start == 0 {
                return path.substring_char(0, 1).to_owned();
            }
            end = start - 1;
        } else {
            return path.substring_char(start, end).to_owned();
        }
    }
    if n > 0 && chars[0] == '/' {
        path.substring_char(0, 1).to_owned()
    } else {
        path.to_owned()
    }
}

/// The links after each of the audio records `members` was linked to the
/// directory, in order.
pub open spec fn links_for(
    links: Seq<audio_directory::Row>,
    directory_id: int,
    members: Seq<int>,
    stamp: i64,
) -> Seq<audio_directory::Row>
    decreases members.len(),
{
    if members.len() == 0 {
        links
    } else {
        let before = links_for(links, directory_id, members.drop_last(), stamp);
        before.push(
            audio_directory::Row {
                audio_directory_id: next_key::<audio_directory::Model>(before),
                created: stamp,
                updated: stamp,
                directory_id,
                audio_id: members.last(),
            },
        )
    }
}

/// The catalog after the audio records of `audio` that lie in `path` were
/// grouped: a new directory row for the path, and a link to it from each of
/// them.
pub open spec fn with_group(
    catalog: CatalogView,
    audio: Seq<audio::Row>,
    path: Seq<char>,
    stamp: i64,
) -> CatalogView {
    let directory_id = next_key::<directory::Model>(catalog.directories);
    CatalogView {
        directories: catalog.directories.push(
            directory::Row {
                directory_id,
                created: stamp,
                updated: stamp,
                name: directory_name(path),
                path,
            },
        ),
        audio_directories: links_for(
            catalog.audio_directories,
            directory_id,
            audio_in(audio, path),
            stamp,
        ),
        ..catalog
    }
}

/// The catalog after the audio records of `audio` were grouped by each of
/// `paths` in turn.
pub open spec fn grouped_by(
    catalog: CatalogView,
    audio: Seq<audio::Row>,
    paths: Seq<Seq<char>>,
    stamp: i64,
) -> CatalogView
    decreases paths.len(),
{
    if paths.len() == 0 {
        catalog
    } else {
        with_group(
            grouped_by(catalog, audio, paths.drop_last(), stamp),
            audio,
            paths.last(),
            stamp,
        )
    }
}

/// The catalog after one grouping pass: its audio records grouped by each
/// of their distinct paths.
pub open spec fn grouped(catalog: CatalogView, stamp: i64) -> CatalogView {
    grouped_by(catalog, catalog.audio, distinct_paths(catalog.audio), stamp)
}

/// How many links the grouping of `audio` by `paths` adds: for each path,
/// one for each audio record in it.
pub open spec fn links_needed(audio: Seq<audio::Row>, paths: Seq<Seq<char>>) -> nat
    decreases paths.len(),
{
    if paths.len() == 0 {
        0
    } else {
        links_needed(audio, paths.drop_last()) + audio_in(audio, paths.last()).len()
    }
}

/// Whether the catalog has the free ids that one grouping pass takes: a
/// directory row for each distinct path, and a link for each audio record.
pub open spec fn room_to_group(catalog: CatalogView) -> bool {
    &&& next_key::<directory::Model>(catalog.directories) + distinct_paths(catalog.audio).len()
        <= i32::MAX + 1
    &&& next_key::<audio_directory::Model>(catalog.audio_directories) + catalog.audio.len()
        <= i32::MAX + 1
}

/// Linking takes one id for each member.
pub proof fn lemma_links_for_grows(
    links: Seq<audio_directory::Row>,
    directory_id: int,
    members: Seq<int>,
    stamp: i64,
)
    ensures
        next_key::<audio_directory::Model>(links_for(links, directory_id, members, stamp))
            == next_key::<audio_directory::Model>(links) + members.len(),
    decreases members.len(),
{
    if members.len() > 0 {
        lemma_links_for_grows(links, directory_id, members.drop_last(), stamp);
    }
}

/// Grouping takes one directory id for each path and one link id for each
/// link needed, and touches no other table.
pub proof fn lemma_grouped_grows(
    catalog: CatalogView,
    audio: Seq<audio::Row>,
    paths: Seq<Seq<char>>,
    stamp: i64,
)
    ensures
        ({
            let after = grouped_by(catalog, audio, paths, stamp);
            &&& next_key::<directory::Model>(after.directories) == next_key::<directory::Model>(
                catalog.directories,
            ) + paths.len()
            &&& next_key::<audio_directory::Model>(after.audio_directories) == next_key::<
                audio_directory::Model,
            >(catalog.audio_directories) + links_needed(audio, paths)
            &&& after == (CatalogView {
                directories: after.directories,
                audio_directories: after.audio_directories,
                ..catalog
            })
        }),
    decreases paths.len(),
{
    if paths.len() > 0 {
        lemma_grouped_grows(catalog, audio, paths.drop_last(), stamp);
        let before = grouped_by(catalog, audio, paths.drop_last(), stamp);
        lemma_links_for_grows(
            before.audio_directories,
            next_key::<directory::Model>(before.directories),
            audio_in(audio, paths.last()),
            stamp,
        );
    }
}

/// The first paths need no more links than all of them.
pub proof fn lemma_links_needed_grows(audio: Seq<audio::Row>, paths: Seq<Seq<char>>, n: int)
    requires
        0 <= n <= paths.len(),
    ensures
        links_needed(audio, paths.take(n)) <= links_needed(audio, paths),
    decreases paths.len() - n,
{
    if n < paths.len() {
        assert(paths.take(n + 1).drop_last() =~= paths.take(n));
        lemma_links_needed_grows(audio, paths, n + 1);
    } else {
        assert(paths.take(n) =~= paths);
    }
}

/// How often `path` occurs in `paths`.
pub open spec fn occurrences(paths: Seq<Seq<char>>, path: Seq<char>) -> nat
    decreases paths.len(),
{
    if paths.len() == 0 {
        0
    } else if paths.last() == path {
        occurrences(paths.drop_last(), path) + 1
    } else {
        occurrences(paths.drop_last(), path)
    }
}

/// A path occurs in a list exactly when its number of occurrences is not 0.
pub proof fn lemma_occurrences(paths: Seq<Seq<char>>, path: Seq<char>)
    ensures
        paths.contains(path) <==> occurrences(paths, path) > 0,
    decreases paths.len(),
{
    if paths.len() > 0 {
        lemma_occurrences(paths.drop_last(), path);
        if paths.contains(path) {
            let i = choose|i: int| 0 <= i < paths.len() && paths[i] == path;
            if i < paths.len() - 1 {
                assert(paths.drop_last()[i] == path);
            }
        }
    }
}

/// One more audio record adds its id to the records of its own path, and to
/// those of no other.
pub proof fn lemma_audio_in_push(rows: Seq<audio::Row>, row: audio::Row, path: Seq<char>)
    ensures
        audio_in(rows.push(row), path) == if row.path == path {
            audio_in(rows, path).push(row.audio_id)
        } else {
            audio_in(rows, path)
        },
{
    assert(rows.push(row).drop_last() =~= rows);
}

/// One more audio record needs one more link for each occurrence of its
/// path among the paths that are grouped by.
pub proof fn lemma_links_needed_push(
    rows: Seq<audio::Row>,
    row: audio::Row,
    paths: Seq<Seq<char>>,
)
    ensures
        links_needed(rows.push(row), paths) == links_needed(rows, paths) + occurrences(
            paths,
            row.path,
        ),
    decreases paths.len(),
{
    if paths.len() > 0 {
        lemma_links_needed_push(rows, row, paths.drop_last());
        lemma_audio_in_push(rows, row, paths.last());
    }
}

/// Among the distinct paths of some audio records each path occurs once at
/// most, and a path that does not occur holds none of the records.
pub proof fn lemma_distinct_paths_once(rows: Seq<audio::Row>, path: Seq<char>)
    ensures
        occurrences(distinct_paths(rows), path) <= 1,
        !distinct_paths(rows).contains(path) ==> audio_in(rows, path).len() == 0,
    decreases rows.len(),
{
    if rows.len() > 0 {
        let before = distinct_paths(rows.drop_last());
        let last = rows.last().path;
        lemma_distinct_paths_once(rows.drop_last(), path);
        lemma_occurrences(before, path);
        lemma_occurrences(before, last);
        lemma_occurrences(distinct_paths(rows), path);
        if !before.contains(last) {
            assert(before.push(last).drop_last() =~= before);
        }
    }
}

/// A grouping pass links every audio record once: grouping by the distinct
/// paths of the audio records needs as many links as there are records.
pub proof fn lemma_every_record_is_linked(rows: Seq<audio::Row>)
    ensures
        links_needed(rows, distinct_paths(rows)) == rows.len(),
    decreases rows.len(),
{
    if rows.len() > 0 {
        let known = rows.drop_last();
        let row = rows.last();
        let before = distinct_paths(known);
        assert(known.push(row) =~= rows);
        lemma_every_record_is_linked(known);
        lemma_links_needed_push(known, row, before);
        lemma_distinct_paths_once(known, row.path);
        lemma_occurrences(before, row.path);
        if !before.contains(row.path) {
            assert(before.push(row.path).drop_last() =~= before);
            lemma_audio_in_push(known, row, row.path);
        }
    }
}

/// Linking adds one row for each member.
pub proof fn lemma_links_for_len(
    links: Seq<audio_directory::Row>,
    directory_id: int,
    members: Seq<int>,
    stamp: i64,
)
    ensures
        links_for(links, directory_id, members, stamp).len() == links.len() + members.len(),
    decreases members.len(),
{
    if members.len() > 0 {
        lemma_links_for_len(links, directory_id, members.drop_last(), stamp);
    }
}

/// Grouping adds one directory row for each path and one link for each link
/// needed.
pub proof fn lemma_grouped_len(
    catalog: CatalogView,
    audio: Seq<audio::Row>,
    paths: Seq<Seq<char>>,
    stamp: i64,
)
    ensures
        grouped_by(catalog, audio, paths, stamp).directories.len() == catalog.directories.len()
            + paths.len(),
        grouped_by(catalog, audio, paths, stamp).audio_directories.len()
            == catalog.audio_directories.len() + links_needed(audio, paths),
    decreases paths.len(),
{
    if paths.len() > 0 {
        lemma_grouped_len(catalog, audio, paths.drop_last(), stamp);
        let before = grouped_by(catalog, audio, paths.drop_last(), stamp);
        lemma_links_for_len(
            before.audio_directories,
            next_key::<directory::Model>(before.directories),
            audio_in(audio, paths.last()),
            stamp,
        );
    }
}

/// One grouping pass adds a directory row for each distinct path of the
/// audio records and a link for each audio record, and leaves every other
/// table as it is.
pub proof fn law_grouping_links_every_record(catalog: CatalogView, stamp: i64)
    ensures
        ({
            let after = grouped(catalog, stamp);
            &&& after.directories.len() == catalog.directories.len() + distinct_paths(
                catalog.audio,
            ).len()
            &&& after.audio_directories.len() == catalog.audio_directories.len()
                + catalog.audio.len()
            &&& after == (CatalogView {
                directories: after.directories,
                audio_directories: after.audio_directories,
                ..catalog
            })
        }),
{
    lemma_grouped_len(catalog, catalog.audio, distinct_paths(catalog.audio), stamp);
    lemma_grouped_grows(catalog, catalog.audio, distinct_paths(catalog.audio), stamp);
    lemma_every_record_is_linked(catalog.audio);
}

/// One grouping pass: for each distinct path of the audio records a new
/// directory row, and a link to it from each audio record in that path.
/// Returns the number of directories added. Refused, with no change, when
/// the catalog lacks the free ids.
pub fn group_directories(catalog: &mut Catalog, stamp: i64) -> (outcome: Result<
    usize,
    CatalogError,
>)
    requires
        old(catalog).wf(),
    ensures
        final(catalog).wf(),
        if room_to_group(old(catalog)@) {
            &&& outcome matches Ok(added)
            &&& added == distinct_paths(old(catalog)@.audio).len()
            &&& final(catalog)@ == grouped(old(catalog)@, stamp)
        } else {
            &&& outcome == Err::<usize, CatalogError>(CatalogError::Full)
            &&& final(catalog)@ == old(catalog)@
        },
{
    let paths = catalog.distinct_paths();
    let n = paths.len();
    let records = catalog.audio.rows().len();
    if !catalog.directories.has_room(n) || !catalog.audio_directories.has_room(records) {
        return Err(CatalogError::Full);
    }
    let ghost start = catalog@;
    proof {
        lemma_every_record_is_linked(start.audio);
    }
    let mut i: usize = 0;
    while i < n
        invariant
            catalog.wf(),
            start == old(catalog)@,
            start.wf(),
            n == paths@.len(),
            texts(paths@) == distinct_paths(start.audio),
            i <= n,
            room_to_group(start),
            links_needed(start.audio, texts(paths@)) == start.audio.len(),
            catalog@ == grouped_by(start, start.audio, texts(paths@).take(i as int), stamp),
        decreases n - i,
    {
        let path = &paths[i];
        let ghost so_far = catalog@;
        proof {
            assert(texts(paths@).take(i + 1).drop_last() =~= texts(paths@).take(i as int));
            lemma_grouped_grows(start, start.audio, texts(paths@).take(i as int), stamp);
            lemma_links_needed_grows(start.audio, texts(paths@), i + 1);
        }
        let row = directory::Model {
            directory_id: 0,
            created: stamp,
            updated: stamp,
            name: display_name(path.as_str()),
            path: path.clone(),
        };
        let directory_id = match catalog.directories.insert(row) {
            Ok(id) => id,
            Err(e) => {
                return Err(e);
            },
        };
        let members = catalog.audio_in(path.as_str());
        let m = members.len();
        let mut j: usize = 0;
        while j < m
            invariant
                catalog.wf(),
                m == members@.len(),
                j <= m,
                ids(members@) == audio_in(start.audio, path@),
                next_key::<audio_directory::Model>(so_far.audio_directories) + m <= i32::MAX + 1,
                directory_id == next_key::<directory::Model>(so_far.directories),
                catalog@ == (CatalogView {
                    directories: with_group(so_far, start.audio, path@, stamp).directories,
                    audio_directories: links_for(
                        so_far.audio_directories,
                        directory_id as int,
                        ids(members@).take(j as int),
                        stamp,
                    ),
                    ..so_far
                }),
            decreases m - j,
        {
            proof {
                assert(ids(members@).take(j + 1).drop_last() =~= ids(members@).take(j as int));
                lemma_links_for_grows(
                    so_far.audio_directories,
                    directory_id as int,
                    ids(members@).take(j as int),
                    stamp,
                );
            }
            let link = audio_directory::Model {
                audio_directory_id: 0,
                created: stamp,
                updated: stamp,
                directory_id,
                audio_id: members[j],
            };
            match catalog.audio_directories.insert(link) {
                Ok(_) => {},
                Err(e) => {
                    return Err(e);
                },
            }
            j += 1;
        }
        assert(ids(members@).take(m as int) =~= ids(members@));
        i += 1;
    }
    assert(texts(paths@).take(n as int) =~= texts(paths@));
    Ok(n)
}

/// Whether a link joins an audio record of `audio` to a directory row of
/// `directories` that has the record's own path.
pub open spec fn joins_own_path(
    directories: Seq<directory::Row>,
    audio: Seq<audio::Row>,
    link: audio_directory::Row,
) -> bool {
    exists|d: int, a: int|
        0 <= d < directories.len() && 0 <= a < audio.len()
            && (#[trigger] directories[d]).directory_id == link.directory_id
            && (#[trigger] audio[a]).audio_id == link.audio_id
            && directories[d].path == audio[a].path
}

/// Each of the audio records in a path is a record, and has that path.
pub proof fn lemma_audio_in_members(rows: Seq<audio::Row>, path: Seq<char>, k: int)
    requires
        0 <= k < audio_in(rows, path).len(),
    ensures
        exists|a: int|
            0 <= a < rows.len() && (#[trigger] rows[a]).audio_id == audio_in(rows, path)[k]
                && rows[a].path == path,
    decreases rows.len(),
{
    if rows.len() > 0 {
        let known = rows.drop_last();
        if rows.last().path == path && k == audio_in(known, path).len() {
            assert(rows[rows.len() - 1].audio_id == audio_in(rows, path)[k]);
        } else {
            lemma_audio_in_members(known, path, k);
            let a = choose|a: int|
                0 <= a < known.len() && (#[trigger] known[a]).audio_id == audio_in(known, path)[k]
                    && known[a].path == path;
            assert(rows[a] == known[a]);
        }
    }
}

/// Linking keeps the links that were there, and adds one for each member,
/// from the member to the directory.
pub proof fn lemma_links_for_rows(
    links: Seq<audio_directory::Row>,
    directory_id: int,
    members: Seq<int>,
    stamp: i64,
)
    ensures
        ({
            let after = links_for(links, directory_id, members, stamp);
            &&& after.len() == links.len() + members.len()
            &&& forall|k: int| 0 <= k < links.len() ==> #[trigger] after[k] == links[k]
            &&& forall|k: int|
                0 <= k < members.len() ==> (#[trigger] after[links.len() + k]).directory_id
                    == directory_id && after[links.len() + k].audio_id == members[k]
        }),
    decreases members.len(),
{
    if members.len() > 0 {
        lemma_links_for_rows(links, directory_id, members.drop_last(), stamp);
    }
}

/// Grouping keeps the directory rows and the links that were there, and
/// each link that it adds joins an audio record to a directory row of the
/// record's own path.
pub proof fn lemma_grouped_joins(
    catalog: CatalogView,
    audio: Seq<audio::Row>,
    paths: Seq<Seq<char>>,
    stamp: i64,
)
    ensures
        ({
            let after = grouped_by(catalog, audio, paths, stamp);
            &&& catalog.directories.is_prefix_of(after.directories)
            &&& catalog.audio_directories.is_prefix_of(after.audio_directories)
            &&& forall|k: int|
                catalog.audio_directories.len() <= k < after.audio_directories.len()
                    ==> joins_own_path(
                    after.directories,
                    audio,
                    #[trigger] after.audio_directories[k],
                )
        }),
    decreases paths.len(),
{
    if paths.len() > 0 {
        let before = grouped_by(catalog, audio, paths.drop_last(), stamp);
        let after = grouped_by(catalog, audio, paths, stamp);
        let path = paths.last();
        let members = audio_in(audio, path);
        let directory_id = next_key::<directory::Model>(before.directories);
        lemma_grouped_joins(catalog, audio, paths.drop_last(), stamp);
        lemma_links_for_rows(before.audio_directories, directory_id, members, stamp);
        let at = before.directories.len() as int;
        assert(after.directories[at].directory_id == directory_id);
        assert(after.directories[at].path == path);
        assert forall|k: int|
            catalog.audio_directories.len() <= k < after.audio_directories.len()
            implies joins_own_path(
            after.directories,
            audio,
            #[trigger] after.audio_directories[k],
        ) by {
            let link = after.audio_directories[k];
            if k < before.audio_directories.len() {
                assert(link == before.audio_directories[k]);
                assert(joins_own_path(before.directories, audio, link));
                let (d, a) = choose|d: int, a: int|
                    0 <= d < before.directories.len() && 0 <= a < audio.len() && (
                    #[trigger] before.directories[d]).directory_id == link.directory_id && (
                    #[trigger] audio[a]).audio_id == link.audio_id && before.directories[d].path
                        == audio[a].path;
                assert(after.directories[d] == before.directories[d]);
            } else {
                let m = k - before.audio_directories.len();
                assert(link == after.audio_directories[before.audio_directories.len() + m]);
                lemma_audio_in_members(audio, path, m);
                let a = choose|a: int|
                    0 <= a < audio.len() && (#[trigger] audio[a]).audio_id == members[m]
                        && audio[a].path == path;
                assert(after.directories[at].directory_id == link.directory_id && audio[a].audio_id
                    == link.audio_id);
            }
        }
    }
}

/// Each link that a grouping pass adds joins an audio record of the catalog
/// to a directory row of that record's own path; the directory rows and the
/// links that were there stay.
pub proof fn law_grouping_joins_own_path(catalog: CatalogView, stamp: i64)
    ensures
        ({
            let after = grouped(catalog, stamp);
            &&& catalog.directories.is_prefix_of(after.directories)
            &&& catalog.audio_directories.is_prefix_of(after.audio_directories)
            &&& forall|k: int|
                catalog.audio_directories.len() <= k < after.audio_directories.len()
                    ==> joins_own_path(
                    after.directories,
                    catalog.audio,
                    #[trigger] after.audio_directories[k],
                )
        }),
{
    lemma_grouped_joins(catalog, catalog.audio, distinct_paths(catalog.audio), stamp);
}

} // verus!
