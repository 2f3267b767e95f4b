//! The repository tree listing: its entries, the trusted parse of a listing
//! body, and the filter that selects the files under a remote path.

use vstd::prelude::*;
use crate::paths::is_under;

verus! {

/// One node of the recursive tree listing: its repo-relative path and
/// whether it is a file. A listing record carries a size exactly when the
/// node is a file, so file-ness is derived from the presence of a size.
#[derive(Debug)]
pub struct RepositoryEntry {
    pub path: String,
    pub is_file: bool,
}

impl Clone for RepositoryEntry {
    /// A clone carries the same path and the same kind.
    fn clone(&self) -> (r: Self)
        ensures
            r@ == self@,
    {
        RepositoryEntry { path: self.path.clone(), is_file: self.is_file }
    }
}

/// The mathematical view of one tree entry.
pub struct EntryView {
    pub path: Seq<char>,
    pub is_file: bool,
}

impl View for RepositoryEntry {
    type V = EntryView;

    open spec fn view(&self) -> EntryView {
        EntryView { path: self.path@, is_file: self.is_file }
    }
}

/// The views of a sequence of entries.
pub open spec fn entry_views(s: Seq<RepositoryEntry>) -> Seq<EntryView> {
    s.map_values(|e: RepositoryEntry| e@)
}

/// What the tree-listing body parses to: the ordered records of its `tree`
/// array, or nothing when the body is not a valid listing. The result is a
/// function of the body text alone.
pub uninterp spec fn parsed_tree(body: Seq<char>) -> Option<Seq<EntryView>>;

/// Relies on `serde_json::from_str` and the accessors of `serde_json::Value`:
/// a valid listing body is a JSON object whose `tree` field is an array of
/// records, each with a string `path` and, for files only, a numeric `size`.
#[verifier::external_body]
pub fn parse_tree_listing(body: &str) -> (r: Option<Vec<RepositoryEntry>>)
    ensures
        r is Some <==> parsed_tree(body@) is Some,
        r matches Some(v) ==> Some(entry_views(v@)) == parsed_tree(body@),
{
    let root: serde_json::Value = serde_json::from_str(body).ok()?;
    let nodes = root.get("tree")?.as_array()?;
    let mut out: Vec<RepositoryEntry> = Vec::new();
    for node in nodes {
        let path = node.get("path")?.as_str()?.to_string();
        let is_file = node.get("size").map_or(false, |s| s.as_i64().is_some());
        out.push(RepositoryEntry { path, is_file });
    }
    Some(out)
}

/// Whether the filter keeps an entry: it is a file and lies under `target`.
pub open spec fn entry_matches(target: Seq<char>, e: EntryView) -> bool {
    e.is_file && is_under(target, e.path)
}

/// The ordered subsequence of `entries` that the filter keeps for `target`.
pub open spec fn matched_entries(entries: Seq<EntryView>, target: Seq<char>) -> Seq<EntryView>
    decreases entries.len(),
{
    if entries.len() == 0 {
        Seq::empty()
    } else {
        let rest = matched_entries(entries.drop_last(), target);
        if entry_matches(target, entries.last()) {
            rest.push(entries.last())
        } else {
            rest
        }
    }
}

/// Law: the filter's output holds only entries that are files and whose path
/// lies component-wise under the target; directories and sibling-prefix
/// entries never appear in it.
pub proof fn lemma_matched_only_files_under(entries: Seq<EntryView>, target: Seq<char>)
    ensures
        forall|i: int|
            0 <= i < matched_entries(entries, target).len() ==> entry_matches(
                target,
                #[trigger] matched_entries(entries, target)[i],
            ),
    decreases entries.len(),
{
    if entries.len() > 0 {
        lemma_matched_only_files_under(entries.drop_last(), target);
        let rest = matched_entries(entries.drop_last(), target);
        let all = matched_entries(entries, target);
        if entry_matches(target, entries.last()) {
            assert(all == rest.push(entries.last()));
            assert forall|i: int| 0 <= i < all.len() implies entry_matches(target, all[i]) by {
                if i < rest.len() {
                    assert(all[i] == rest[i]);
                } else {
                    assert(all[i] == entries.last());
                }
            }
        } else {
            assert(all == rest);
        }
    }
}

/// Select, in listing order, the entries that are files and lie under the
/// remote path `target`.
pub fn filter_tree(entries: &Vec<RepositoryEntry>, target: &str) -> (r: Vec<RepositoryEntry>)
    ensures
        entry_views(r@) == matched_entries(entry_views(entries@), target@),
{
    let mut out: Vec<RepositoryEntry> = Vec::new();
    let mut i: usize = 0;
    while i < entries.len()
        invariant
            i <= entries.len(),
            entry_views(out@) == matched_entries(entry_views(entries@.subrange(0, i as int)), target@),
        decreases entries.len() - i,
    {
        let e = &entries[i];
        let ghost prefix = entry_views(entries@.subrange(0, i as int));
        let ghost prefix1 = entry_views(entries@.subrange(0, i as int + 1));
        proof {
            assert(prefix1.drop_last() =~= prefix);
            assert(prefix1.last() == entries@[i as int]@);
        }
        if e.is_file && crate::paths::path_is_under(target, e.path.as_str()) {
            out.push(e.clone());
            proof {
                assert(entry_views(out@) =~= matched_entries(prefix, target@).push(entries@[i as int]@));
            }
        }
        i = i + 1;
    }
    proof {
        assert(entries@.subrange(0, entries@.len() as int) =~= entries@);
    }
    out
}

} // verus!
