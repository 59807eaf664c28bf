//! The jj (Jujutsu) closest-bookmarks protocol and context builder.
//!
//! Two queries run against the jj log engine. The first asks the nearest
//! bookmark-carrying ancestors of the working copy for their change
//! identifiers, joined by the unit separator `\x1f`; only the first one is
//! pursued, in the engine's own order. The second asks that single change
//! for two lines: its local bookmark names joined by the record separator
//! `\x1e`, and its tracked remote bookmarks as `name \x1f ahead \x1f behind`
//! records joined by `\x1e`. Query construction and decoding live side by
//! side here so the delimiters and field order cannot drift apart.
use crate::command::Invocation;
use crate::text::{
    dec_value, find_char, is_blank, is_count_str, lemma_split_char_first_sep,
    lemma_split_char_no_sep, lemma_split_char_nonempty, parse_count, split_char, split_str,
    str_is_blank, str_views,
};
use vstd::prelude::*;

verus! {

/// One bookmark at the closest bookmarked change: its name, how the remote
/// that tracks it relates to it, and whether any remote tracks it at all.
/// When `is_tracked` is false both counts are zero.
#[derive(Debug, Clone)]
pub struct BookmarkInfo {
    pub name: String,
    pub remote_ahead: usize,
    pub remote_behind: usize,
    pub is_tracked: bool,
}

/// The bookmarks found at the closest ancestor change that carries any,
/// in the order the local bookmark list gave them. Present but empty when
/// no ancestor carries a bookmark at all.
#[derive(Debug, Clone)]
pub struct JjClosestBookmarksInfo {
    pub bookmarks: Vec<BookmarkInfo>,
}

/// The mathematical shape of one decoded bookmark.
pub struct BookmarkRecord {
    pub name: Seq<char>,
    pub remote_ahead: usize,
    pub remote_behind: usize,
    pub is_tracked: bool,
}

impl View for BookmarkInfo {
    type V = BookmarkRecord;

    open spec fn view(&self) -> BookmarkRecord {
        BookmarkRecord {
            name: self.name@,
            remote_ahead: self.remote_ahead,
            remote_behind: self.remote_behind,
            is_tracked: self.is_tracked,
        }
    }
}

impl View for JjClosestBookmarksInfo {
    type V = Seq<BookmarkRecord>;

    open spec fn view(&self) -> Seq<BookmarkRecord> {
        self.bookmarks@.map_values(|b: BookmarkInfo| b@)
    }
}

/// The template of the first query: every bookmark's change identifier,
/// each followed by the unit separator.
pub open spec fn closest_bookmarks_template() -> Seq<char> {
    "bookmarks.map(|b| b.normal_target().change_id() ++ \"\\x1f\")"@
}

/// The template of the second query, producing the two protocol lines; its
/// third expression, conflict detection, is computed by the engine but
/// discarded by the decoder.
pub open spec fn spec_jujutsu_closest_template() -> Seq<char> {
    "local_bookmarks.map(|b| b.name()).join(\"\\x1e\") ++ \"\\n\"\n        ++ remote_bookmarks.filter(|b| b.tracked()).map(|b| b.name() ++ \"\\x1f\" ++ b.tracking_ahead_count().lower() ++ \"\\x1f\" ++ b.tracking_behind_count().lower()).join(\"\\x1e\") ++ \"\\n\"\n        ++ (local_bookmarks.any(|b| b.conflict()) || remote_bookmarks.any(|b| b.conflict()))"@
}

/// The template string of the second query.
pub fn jujutsu_closest_template() -> (r: String)
    ensures
        r@ == spec_jujutsu_closest_template(),
{
    "local_bookmarks.map(|b| b.name()).join(\"\\x1e\") ++ \"\\n\"\n        ++ remote_bookmarks.filter(|b| b.tracked()).map(|b| b.name() ++ \"\\x1f\" ++ b.tracking_ahead_count().lower() ++ \"\\x1f\" ++ b.tracking_behind_count().lower()).join(\"\\x1e\") ++ \"\\n\"\n        ++ (local_bookmarks.any(|b| b.conflict()) || remote_bookmarks.any(|b| b.conflict()))".to_owned()
}

/// The `--ignore-working-copy` flag when working-copy snapshotting is
/// suppressed; omitted entirely otherwise.
pub open spec fn spec_working_copy_flag(ignore_working_copy: bool) -> Seq<Seq<char>> {
    if ignore_working_copy {
        seq!["--ignore-working-copy"@]
    } else {
        Seq::empty()
    }
}

/// The argument list of the first query: a graphless log over the nearest
/// bookmarked ancestors of the working copy, with `--ignore-working-copy`
/// passed exactly when snapshotting is suppressed.
pub open spec fn spec_closest_change_args(ignore_working_copy: bool) -> Seq<Seq<char>> {
    seq!["log"@, "--no-graph"@, "-r"@, "heads(::@ & bookmarks())"@] + spec_working_copy_flag(
        ignore_working_copy,
    ) + seq!["-T"@, closest_bookmarks_template()]
}

pub fn closest_change_args(ignore_working_copy: bool) -> (r: Vec<String>)
    ensures
        str_views(r@) == spec_closest_change_args(ignore_working_copy),
{
    let mut r: Vec<String> = Vec::new();
    r.push("log".to_owned());
    r.push("--no-graph".to_owned());
    r.push("-r".to_owned());
    r.push("heads(::@ & bookmarks())".to_owned());
    if ignore_working_copy {
        r.push("--ignore-working-copy".to_owned());
    }
    r.push("-T".to_owned());
    r.push("bookmarks.map(|b| b.normal_target().change_id() ++ \"\\x1f\")".to_owned());
    proof {
        assert(str_views(r@) =~= spec_closest_change_args(ignore_working_copy));
    }
    r
}

/// The argument list of the second query, restricted to one change, with
/// the flag omitted as in the first.
pub open spec fn spec_bookmark_detail_args(change_id: Seq<char>, ignore_working_copy: bool) -> Seq<
    Seq<char>,
> {
    seq!["log"@, "--no-graph"@, "-r"@, change_id] + spec_working_copy_flag(ignore_working_copy)
        + seq!["-T"@, spec_jujutsu_closest_template()]
}

pub fn bookmark_detail_args(change_id: &str, ignore_working_copy: bool) -> (r: Vec<String>)
    ensures
        str_views(r@) == spec_bookmark_detail_args(change_id@, ignore_working_copy),
{
    let mut r: Vec<String> = Vec::new();
    r.push("log".to_owned());
    r.push("--no-graph".to_owned());
    r.push("-r".to_owned());
    r.push(change_id.to_owned());
    if ignore_working_copy {
        r.push("--ignore-working-copy".to_owned());
    }
    r.push("-T".to_owned());
    r.push(jujutsu_closest_template());
    proof {
        assert(str_views(r@) =~= spec_bookmark_detail_args(change_id@, ignore_working_copy));
    }
    r
}

/// What the first query's output names: everything before its first unit
/// separator, the whole output if it has none.
pub open spec fn closest_change_of(s: Seq<char>) -> Seq<char> {
    split_char(s, '\x1f')[0]
}

/// The single change identifier the first query chose: the field before the
/// first unit separator. Empty when no ancestor carries a bookmark.
pub fn closest_change_id(phase1_stdout: &str) -> (r: String)
    ensures
        r@ == closest_change_of(phase1_stdout@),
{
    match find_char(phase1_stdout, '\x1f') {
        Some(i) => {
            proof {
                lemma_split_char_first_sep(phase1_stdout@, '\x1f', i as int);
            }
            phase1_stdout.substring_char(0, i).to_owned()
        },
        None => {
            proof {
                lemma_split_char_no_sep(phase1_stdout@, '\x1f');
            }
            phase1_stdout.to_owned()
        },
    }
}

/// A tracked-bookmark record in the wire format: name, ahead count and
/// behind count joined by the unit separator, the counts plain decimal
/// numerals that fit in `usize`.
pub open spec fn delim_record_of(s: Seq<char>) -> Option<(Seq<char>, usize, usize)> {
    let parts = split_char(s, '\x1f');
    if parts.len() == 3 && is_count_str(parts[1]) && is_count_str(parts[2]) {
        Some((parts[0], dec_value(parts[1]) as usize, dec_value(parts[2]) as usize))
    } else {
        None
    }
}

/// What decoding a record as a JSON object with fields `name`, `ahead` and
/// `behind` yields; a function of the record text alone.
pub uninterp spec fn json_record_of(s: Seq<char>) -> Option<(Seq<char>, usize, usize)>;

/// One tracked-bookmark record decoded: a blank record is nothing, the
/// unit-separator form comes first, and the JSON object form catches what
/// that misses; a record in none of these forms is dropped.
pub open spec fn decode_record(s: Seq<char>) -> Option<(Seq<char>, usize, usize)> {
    if is_blank(s) {
        None
    } else if delim_record_of(s) is Some {
        delim_record_of(s)
    } else {
        json_record_of(s)
    }
}

/// Relies on serde_json::from_str and serde_json::Value's get, as_str and
/// as_u64: decodes the whole of `s` as a JSON object and reads its `name`
/// string and its `ahead` and `behind` unsigned integers, none on any other
/// input. The outcome depends on the text alone.
#[verifier::external_body]
fn parse_json_record(s: &str) -> (r: Option<(String, usize, usize)>)
    ensures
        (r is Some) == (json_record_of(s@) is Some),
        r matches Some(t) ==> json_record_of(s@) == Some((t.0@, t.1, t.2)),
{
    let v: serde_json::Value = serde_json::from_str(s).ok()?;
    let name = v.get("name")?.as_str()?;
    let ahead = usize::try_from(v.get("ahead")?.as_u64()?).ok()?;
    let behind = usize::try_from(v.get("behind")?.as_u64()?).ok()?;
    Some((name.to_string(), ahead, behind))
}

/// Decodes one record of the tracked-bookmark line.
fn decode_tracked_record(s: &str) -> (r: Option<(String, usize, usize)>)
    ensures
        (r is Some) == (decode_record(s@) is Some),
        r matches Some(t) ==> decode_record(s@) == Some((t.0@, t.1, t.2)),
{
    if str_is_blank(s) {
        return None;
    }
    let mut parts = split_str(s, '\x1f');
    if parts.len() == 3 {
        let ahead = parse_count(parts[1].as_str());
        let behind = parse_count(parts[2].as_str());
        match (ahead, behind) {
            (Some(a), Some(b)) => {
                let name = parts.remove(0);
                return Some((name, a, b));
            },
            _ => {},
        }
    }
    proof {
        assert(delim_record_of(s@) is None);
    }
    parse_json_record(s)
}

/// The elementwise maximum of two ahead/behind pairs.
pub open spec fn merge_counts(a: (usize, usize), b: (usize, usize)) -> (usize, usize) {
    ((if b.0 > a.0 {
        b.0
    } else {
        a.0
    }), (if b.1 > a.1 {
        b.1
    } else {
        a.1
    }))
}

/// Merges one decoded record into the tracked map. A name seen again keeps
/// the elementwise maximum of its counts: duplicate records restate the
/// same remote relationship, they never add up.
pub open spec fn merge_decoded(
    m: Map<Seq<char>, (usize, usize)>,
    name: Seq<char>,
    ahead: usize,
    behind: usize,
) -> Map<Seq<char>, (usize, usize)> {
    if m.contains_key(name) {
        m.insert(name, merge_counts(m[name], (ahead, behind)))
    } else {
        m.insert(name, (ahead, behind))
    }
}

/// Merges one raw record into the tracked map; a record that decodes to
/// nothing leaves the map as it was.
pub open spec fn merge_record(m: Map<Seq<char>, (usize, usize)>, rec: Seq<char>) -> Map<
    Seq<char>,
    (usize, usize),
> {
    match decode_record(rec) {
        Some(t) => merge_decoded(m, t.0, t.1, t.2),
        None => m,
    }
}

/// The records merged in order into an initially empty map.
pub open spec fn merge_records(recs: Seq<Seq<char>>) -> Map<Seq<char>, (usize, usize)>
    decreases recs.len(),
{
    if recs.len() == 0 {
        Map::empty()
    } else {
        merge_record(merge_records(recs.drop_last()), recs.last())
    }
}

/// The tracked-bookmark map of the second protocol line: its records split
/// on the record separator, decoded and merged.
pub open spec fn tracked_map_of(line: Seq<char>) -> Map<Seq<char>, (usize, usize)> {
    merge_records(split_char(line, '\x1e'))
}

/// The name-to-counts map decoded from the tracked-bookmark line.
pub struct TrackedBookmarks {
    entries: Vec<(String, usize, usize)>,
}

/// The map the entries spell out in order; a later entry for a name
/// supersedes an earlier one.
pub open spec fn entries_map(s: Seq<(String, usize, usize)>) -> Map<Seq<char>, (usize, usize)>
    decreases s.len(),
{
    if s.len() == 0 {
        Map::empty()
    } else {
        entries_map(s.drop_last()).insert(s.last().0@, (s.last().1, s.last().2))
    }
}

impl View for TrackedBookmarks {
    type V = Map<Seq<char>, (usize, usize)>;

    closed spec fn view(&self) -> Map<Seq<char>, (usize, usize)> {
        entries_map(self.entries@)
    }
}

impl TrackedBookmarks {
    pub fn new() -> (r: TrackedBookmarks)
        ensures
            r@ == Map::<Seq<char>, (usize, usize)>::empty(),
    {
        TrackedBookmarks { entries: Vec::new() }
    }

    /// The counts recorded for `name`, if any.
    pub fn get(&self, name: &String) -> (r: Option<(usize, usize)>)
        ensures
            (r is Some) == self@.contains_key(name@),
            r matches Some(c) ==> self@[name@] == c,
    {
        let mut i: usize = self.entries.len();
        proof {
            assert(self.entries@.take(i as int) =~= self.entries@);
        }
        while i > 0
            invariant
                i <= self.entries.len(),
                entries_map(self.entries@).contains_key(name@) == entries_map(
                    self.entries@.take(i as int),
                ).contains_key(name@),
                entries_map(self.entries@).contains_key(name@) ==> entries_map(self.entries@)[name@]
                    == entries_map(self.entries@.take(i as int))[name@],
            decreases i,
        {
            proof {
                assert(self.entries@.take(i as int).drop_last() =~= self.entries@.take(i - 1));
            }
            let entry = &self.entries[i - 1];
            if entry.0 == *name {
                return Some((entry.1, entry.2));
            }
            i = i - 1;
        }
        proof {
            assert(self.entries@.take(0) =~= Seq::<(String, usize, usize)>::empty());
        }
        None
    }

    /// Records one decoded tracked-bookmark record, merging duplicate names
    /// by elementwise maximum.
    pub fn insert_merged(&mut self, name: String, ahead: usize, behind: usize)
        ensures
            final (self)@ == merge_decoded(old(self)@, name@, ahead, behind),
    {
        let merged: (usize, usize) = match self.get(&name) {
            Some((a, b)) => (
                (if ahead > a {
                    ahead
                } else {
                    a
                }),
                (if behind > b {
                    behind
                } else {
                    b
                }),
            ),
            None => (ahead, behind),
        };
        let ghost before = self.entries@;
        self.entries.push((name, merged.0, merged.1));
        proof {
            assert(self.entries@.drop_last() =~= before);
        }
    }
}

/// Decodes the tracked-bookmark line: records split on the record
/// separator, each decoded and merged, malformed ones dropped.
pub fn parse_tracked_bookmarks(output: &str) -> (r: TrackedBookmarks)
    ensures
        r@ == tracked_map_of(output@),
{
    let records = split_str(output, '\x1e');
    let mut r = TrackedBookmarks::new();
    let n = records.len();
    let mut i: usize = 0;
    while i < n
        invariant
            i <= n,
            n == records@.len(),
            str_views(records@) == split_char(output@, '\x1e'),
            r@ == merge_records(str_views(records@).take(i as int)),
        decreases n - i,
    {
        proof {
            assert(str_views(records@).take(i + 1).drop_last() =~= str_views(records@).take(
                i as int,
            ));
        }
        match decode_tracked_record(records[i].as_str()) {
            Some((name, ahead, behind)) => {
                r.insert_merged(name, ahead, behind);
            },
            None => {},
        }
        i = i + 1;
    }
    proof {
        assert(str_views(records@).take(n as int) =~= str_views(records@));
    }
    r
}

/// The bookmark a local name yields: its merged counts and a tracked flag
/// when the tracked map knows the name, zero counts and an untracked flag
/// when it does not.
pub open spec fn bookmark_record_of(name: Seq<char>, m: Map<Seq<char>, (usize, usize)>)
    -> BookmarkRecord {
    if m.contains_key(name) {
        BookmarkRecord { name, remote_ahead: m[name].0, remote_behind: m[name].1, is_tracked: true }
    } else {
        BookmarkRecord { name, remote_ahead: 0, remote_behind: 0, is_tracked: false }
    }
}

/// The bookmarks of the non-empty local names, in order. Names only the
/// tracked map knows yield nothing: the local list alone decides
/// membership.
pub open spec fn records_of_names(names: Seq<Seq<char>>, m: Map<Seq<char>, (usize, usize)>) -> Seq<
    BookmarkRecord,
>
    decreases names.len(),
{
    if names.len() == 0 {
        Seq::empty()
    } else {
        let rest = records_of_names(names.drop_last(), m);
        if names.last().len() > 0 {
            rest.push(bookmark_record_of(names.last(), m))
        } else {
            rest
        }
    }
}

/// Line `k` of the output as the decoder reads it: the pieces between
/// newlines, a carriage return stripped from a piece a newline ended, and
/// empty where the output has no such line.
pub open spec fn line_at(s: Seq<char>, k: int) -> Seq<char> {
    let parts = split_char(s, '\n');
    if 0 <= k < parts.len() {
        if k + 1 < parts.len() && parts[k].len() > 0 && parts[k].last() == '\r' {
            parts[k].drop_last()
        } else {
            parts[k]
        }
    } else {
        Seq::empty()
    }
}

/// The whole decode of the second query's output: the first line's local
/// bookmark names against the second line's tracked map.
pub open spec fn decode_bookmarks(output: Seq<char>) -> Seq<BookmarkRecord> {
    records_of_names(split_char(line_at(output, 0), '\x1e'), tracked_map_of(line_at(output, 1)))
}

fn strip_trailing_cr(part: &str, had_newline: bool) -> (r: String)
    ensures
        r@ == (if had_newline && part@.len() > 0 && part@.last() == '\r' {
            part@.drop_last()
        } else {
            part@
        }),
{
    let n = part.unicode_len();
    if had_newline && n > 0 && part.get_char(n - 1) == '\r' {
        let head = part.substring_char(0, n - 1);
        proof {
            assert(head@ =~= part@.drop_last());
        }
        head.to_owned()
    } else {
        part.to_owned()
    }
}

/// Decodes the second query's output into the closest-bookmarks result.
pub fn decode_closest_bookmarks(output: &str) -> (r: JjClosestBookmarksInfo)
    ensures
        r@ == decode_bookmarks(output@),
{
    let lines = split_str(output, '\n');
    proof {
        lemma_split_char_nonempty(output@, '\n');
    }
    let line1 = strip_trailing_cr(lines[0].as_str(), lines.len() > 1);
    let line2 = if lines.len() > 1 {
        strip_trailing_cr(lines[1].as_str(), lines.len() > 2)
    } else {
        String::new()
    };
    proof {
        assert(line1@ == line_at(output@, 0));
        assert(line2@ == line_at(output@, 1));
    }
    let counts_map = parse_tracked_bookmarks(line2.as_str());
    let names = split_str(line1.as_str(), '\x1e');
    let mut bookmarks: Vec<BookmarkInfo> = Vec::new();
    let n = names.len();
    let mut i: usize = 0;
    while i < n
        invariant
            i <= n,
            n == names@.len(),
            str_views(names@) == split_char(line_at(output@, 0), '\x1e'),
            counts_map@ == tracked_map_of(line_at(output@, 1)),
            bookmarks@.map_values(|b: BookmarkInfo| b@) == records_of_names(
                str_views(names@).take(i as int),
                counts_map@,
            ),
        decreases n - i,
    {
        proof {
            assert(str_views(names@).take(i + 1).drop_last() =~= str_views(names@).take(i as int));
        }
        let name = &names[i];
        if !name.as_str().is_empty() {
            let info = match counts_map.get(name) {
                Some((ahead, behind)) => BookmarkInfo {
                    name: name.clone(),
                    remote_ahead: ahead,
                    remote_behind: behind,
                    is_tracked: true,
                },
                None => BookmarkInfo {
                    name: name.clone(),
                    remote_ahead: 0,
                    remote_behind: 0,
                    is_tracked: false,
                },
            };
            bookmarks.push(info);
        }
        proof {
            assert(bookmarks@.map_values(|b: BookmarkInfo| b@) =~= records_of_names(
                str_views(names@).take(i + 1),
                counts_map@,
            ));
        }
        i = i + 1;
    }
    proof {
        assert(str_views(names@).take(n as int) =~= str_views(names@));
    }
    JjClosestBookmarksInfo { bookmarks }
}

/// Resolves the closest-bookmarks result from the two queries' captured
/// outputs, absent where a query's own output is absent. An empty change
/// identifier from the first query means no ancestor carries a bookmark:
/// the result is then present and empty, and the second query is not
/// consulted.
pub fn get_closest_jujutsu_bookmarks_info(
    phase1_stdout: Option<&str>,
    phase2_stdout: Option<&str>,
) -> (r: Option<JjClosestBookmarksInfo>)
    ensures
        phase1_stdout is None ==> r is None,
        phase1_stdout matches Some(o1) ==> {
            &&& closest_change_of(o1@).len() == 0 ==> (r matches Some(info) && info@ == Seq::<
                BookmarkRecord,
            >::empty())
            &&& closest_change_of(o1@).len() > 0 && phase2_stdout is None ==> r is None
            &&& closest_change_of(o1@).len() > 0 ==> (phase2_stdout matches Some(o2) ==> (
            r matches Some(info) && info@ == decode_bookmarks(o2@)))
        },
{
    match phase1_stdout {
        None => None,
        Some(o1) => {
            let change_id = closest_change_id(o1);
            if change_id.as_str().is_empty() {
                let empty = JjClosestBookmarksInfo { bookmarks: Vec::new() };
                proof {
                    assert(empty@ =~= Seq::<BookmarkRecord>::empty());
                }
                Some(empty)
            } else {
                match phase2_stdout {
                    None => None,
                    Some(o2) => Some(decode_closest_bookmarks(o2)),
                }
            }
        },
    }
}

/// The context of one discovered jj workspace.
pub struct Repo {
    /// The workspace root: the nearest ancestor directory holding a `.jj`
    /// directory.
    pub workdir: String,
    /// The closest-bookmarks result; absent when the underlying query
    /// failed or timed out, as distinct from present and empty.
    pub jj_closest_bookmarks: Option<JjClosestBookmarksInfo>,
}

/// Builds the jj `Repo` context from a discovered workspace root and the
/// resolved closest-bookmarks result.
pub fn init_repo(workdir: String, jj_closest_bookmarks: Option<JjClosestBookmarksInfo>) -> (r: Repo)
    ensures
        r.workdir == workdir,
        r.jj_closest_bookmarks == jj_closest_bookmarks,
{
    Repo { workdir, jj_closest_bookmarks }
}

impl Repo {
    /// The external jj invocation for the caller's arguments, passed on
    /// unchanged. Unlike `exec_git` this pins no directory, lock or hook
    /// settings; the asymmetry is the observed protocol's own and is kept
    /// as it stands.
    pub fn exec_jj(&self, timeout_ms: u64, jj_args: Vec<String>) -> (r: Invocation)
        ensures
            r.program@ == "jj"@,
            str_views(r.args@) == str_views(jj_args@),
            r.env@.len() == 0,
            r.timeout_ms == timeout_ms,
    {
        Invocation { program: "jj".to_owned(), env: Vec::new(), args: jj_args, timeout_ms }
    }
}

/// Duplicate tracked records for one name merge to the elementwise maximum
/// of their ahead and behind counts, never to a sum and never to the later
/// record alone.
pub proof fn lemma_duplicate_records_merge_max(
    m: Map<Seq<char>, (usize, usize)>,
    name: Seq<char>,
    a1: usize,
    b1: usize,
    a2: usize,
    b2: usize,
)
    requires
        !m.contains_key(name),
    ensures
        merge_decoded(merge_decoded(m, name, a1, b1), name, a2, b2) == m.insert(
            name,
            ((if a2 > a1 {
                a2
            } else {
                a1
            }), (if b2 > b1 {
                b2
            } else {
                b1
            })),
        ),
{
    assert(merge_decoded(merge_decoded(m, name, a1, b1), name, a2, b2) =~= m.insert(
        name,
        ((if a2 > a1 {
            a2
        } else {
            a1
        }), (if b2 > b1 {
            b2
        } else {
            b1
        })),
    ));
}

/// A local bookmark name the tracked map does not know yields an untracked
/// bookmark with zero counts.
pub proof fn lemma_untracked_bookmark(name: Seq<char>, m: Map<Seq<char>, (usize, usize)>)
    requires
        !m.contains_key(name),
    ensures
        bookmark_record_of(name, m) == (BookmarkRecord {
            name,
            remote_ahead: 0,
            remote_behind: 0,
            is_tracked: false,
        }),
{
}

/// A record that decodes to nothing is skipped outright: the merged map is
/// the one of the remaining records, wherever in the line the bad record
/// stood.
pub proof fn lemma_malformed_record_skipped(recs: Seq<Seq<char>>, i: int)
    requires
        0 <= i < recs.len(),
        decode_record(recs[i]) is None,
    ensures
        merge_records(recs) == merge_records(recs.remove(i)),
    decreases recs.len(),
{
    if i == recs.len() - 1 {
        assert(recs.remove(i) =~= recs.drop_last());
    } else {
        lemma_malformed_record_skipped(recs.drop_last(), i);
        assert(recs.remove(i).drop_last() =~= recs.drop_last().remove(i));
        assert(recs.remove(i).last() == recs.last());
    }
}

/// An empty tracked-bookmark line yields an empty map: its one record is
/// blank, and a blank record decodes to nothing. Every local bookmark then
/// comes out untracked with zero counts.
pub proof fn lemma_empty_tracked_line(line: Seq<char>)
    requires
        line.len() == 0,
    ensures
        tracked_map_of(line) == Map::<Seq<char>, (usize, usize)>::empty(),
{
    assert(line =~= Seq::<char>::empty());
    let recs = split_char(line, '\x1e');
    assert(recs =~= seq![Seq::<char>::empty()]);
    assert(recs.drop_last() =~= Seq::<Seq<char>>::empty());
    assert(decode_record(recs.last()) is None);
    assert(merge_records(recs.drop_last()) == Map::<Seq<char>, (usize, usize)>::empty());
    assert(merge_records(recs) == merge_records(recs.drop_last()));
}

/// Every untracked bookmark of a decoded result carries zero counts,
/// whatever the protocol lines held.
pub proof fn lemma_untracked_have_zero_counts(
    names: Seq<Seq<char>>,
    m: Map<Seq<char>, (usize, usize)>,
)
    ensures
        forall|k: int|
            0 <= k < records_of_names(names, m).len() && !records_of_names(names, m)[k].is_tracked
                ==> records_of_names(names, m)[k].remote_ahead == 0 && records_of_names(names, m)[
                k
            ].remote_behind == 0,
    decreases names.len(),
{
    if names.len() > 0 {
        lemma_untracked_have_zero_counts(names.drop_last(), m);
        let rest = records_of_names(names.drop_last(), m);
        let all = records_of_names(names, m);
        assert forall|k: int|
            0 <= k < all.len() && !all[k].is_tracked implies all[k].remote_ahead == 0
            && all[k].remote_behind == 0 by {
            if k < rest.len() {
                assert(all[k] == rest[k]);
            } else {
                assert(all[k] == bookmark_record_of(names.last(), m));
            }
        }
    }
}

} // verus!
