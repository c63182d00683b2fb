//! The file-browser sidebar: the listing of the current directory, the
//! name filter, the selection, and what its events ask for.

use vstd::prelude::*;
use crate::text::{contains_str, ends_with_str, has_infix, has_suffix, lowercase, push_str, to_lowercase};
use crate::order::{chars_lt, lemma_lt_asymmetric, lemma_lt_transitive, str_lt};

verus! {

// ------------------------------------------------------------------------
// Paths
// ------------------------------------------------------------------------

/// The last component of a path, as `std::path::Path::file_name` gives it
/// (`None` for a root, or a path ending in `..`).
pub uninterp spec fn path_file_name(p: Seq<char>) -> Option<Seq<char>>;

/// The path without its last component, as `std::path::Path::parent`
/// gives it (`None` for a root or an empty path).
pub uninterp spec fn path_parent(p: Seq<char>) -> Option<Seq<char>>;

/// `Path::new(path).file_name()`, as a string.
#[verifier::external_body]
pub(crate) fn file_name(path: &str) -> (res: Option<String>)
    ensures
        match res {
            Some(s) => path_file_name(path@) == Some(s@),
            None => path_file_name(path@) is None,
        },
{
    std::path::Path::new(path).file_name().map(|n| n.to_string_lossy().into_owned())
}

/// `Path::new(path).parent()`, as a string.
#[verifier::external_body]
fn path_parent_of(path: &str) -> (res: Option<String>)
    ensures
        match res {
            Some(s) => path_parent(path@) == Some(s@),
            None => path_parent(path@) is None,
        },
{
    std::path::Path::new(path).parent().map(|p| p.to_string_lossy().into_owned())
}

/// The directory above `path`; a path without a parent (a root) is its
/// own parent.
pub fn parent_of(path: &str) -> (res: String)
    ensures
        res@ == match path_parent(path@) {
            Some(p) => p,
            None => path@,
        },
{
    match path_parent_of(path) {
        Some(p) => p,
        None => path.to_owned(),
    }
}

// ------------------------------------------------------------------------
// Listing
// ------------------------------------------------------------------------

/// A directory entry.
#[derive(Debug, Clone)]
pub struct Entry {
    pub name: String,
    pub path: String,
    pub is_dir: bool,
}

/// A directory and its entries.
#[derive(Debug, Clone)]
pub struct Listing {
    pub dir: String,
    pub entries: Vec<Entry>,
}

/// Entries whose name starts with a dot are not listed.
pub fn is_hidden(name: &str) -> (res: bool)
    ensures
        res == (name@.len() > 0 && name@[0] == '.'),
{
    let chars = crate::text::chars_of(name);
    chars.len() > 0 && chars[0] == '.'
}

/// A row's icon: folder, notebook or plain file.
pub fn entry_icon(entry: &Entry) -> (res: &'static str)
    ensures
        res@ == if entry.is_dir {
            "📁"@
        } else if has_suffix(entry.name@, ".ipynb"@) {
            "📔"@
        } else {
            "📄"@
        },
{
    if entry.is_dir {
        "📁"
    } else if ends_with_str(entry.name.as_str(), ".ipynb") {
        "📔"
    } else {
        "📄"
    }
}

/// What the sidebar asks of the app.
#[derive(Debug)]
pub enum Event {
    /// Open a directory.
    Navigate(String),
    /// Open a notebook in a tab.
    OpenNotebook(String),
    Refresh,
    Up,
    FilterChanged(String),
    /// A directory listing arrived (or failed).
    Loaded(Result<Listing, String>),
    /// Select the row of entry `i`.
    Select(usize),
}

/// What the app has to do for a sidebar event.
#[derive(Debug, Clone)]
pub enum Effect {
    Nothing,
    /// List this directory and report it with `Event::Loaded`.
    ReadDir(String),
    /// Open this notebook.
    OpenNotebook(String),
}

/// The file browser.
#[derive(Debug)]
pub struct FileBrowser {
    pub cwd: String,
    pub entries: Vec<Entry>,
    pub filter: String,
    pub selected: Option<usize>,
    pub error: Option<String>,
}

/// Whether entry `name` passes `filter`: an empty filter passes all; else
/// the lowercased filter occurs in the lowercased name.
pub open spec fn passes_filter(name: Seq<char>, filter: Seq<char>) -> bool {
    lowercase(filter).len() == 0 || has_infix(lowercase(name), lowercase(filter))
}

/// Indices (ascending) of the entries that pass the filter.
pub open spec fn visible_spec(entries: Seq<Entry>, filter: Seq<char>) -> Seq<usize> {
    Seq::new(entries.len(), |i: int| i as usize).filter(|i: usize| passes_filter(entries[i as int].name@, filter))
}

/// The entries shown under a filter are listed once each, in ascending
/// order, and entry `k` is among them exactly when its name passes the
/// filter.
proof fn lemma_visible_entries(entries: Seq<Entry>, filter: Seq<char>)
    requires
        entries.len() <= usize::MAX,
    ensures
        forall|a: int, b: int| 0 <= a < b < visible_spec(entries, filter).len()
            ==> visible_spec(entries, filter)[a] < visible_spec(entries, filter)[b],
        forall|k: int| 0 <= k < visible_spec(entries, filter).len() ==> visible_spec(entries, filter)[k] < entries.len(),
        forall|k: int| #![trigger entries[k]] 0 <= k < entries.len() ==> (visible_spec(entries, filter).contains(k as usize)
            <==> passes_filter(entries[k].name@, filter)),
{
    let idx = Seq::new(entries.len(), |i: int| i as usize);
    let pred = |i: usize| passes_filter(entries[i as int].name@, filter);
    let v = idx.filter(pred);
    assert(v == visible_spec(entries, filter));
    assert forall|k: int| 0 <= k < idx.len() implies idx[k] as int == k by {}
    assert forall|a: int, b: int| 0 <= a < b < idx.len() implies idx[a] < idx[b] by {
        assert(idx[a] as int == a && idx[b] as int == b);
    }
    lemma_filter_ascending(idx, pred);
    assert forall|k: int| 0 <= k < v.len() implies v[k] < entries.len() by {
        assert(v.contains(v[k]));
        idx.lemma_filter_contains_rev(pred, v[k]);
    }
    assert forall|k: int| #![trigger entries[k]] 0 <= k < entries.len() implies (visible_spec(entries, filter).contains(k as usize)
        <==> passes_filter(entries[k].name@, filter)) by {
        assert(idx[k] == k as usize);
        assert(pred(idx[k]) == passes_filter(entries[k].name@, filter));
        if passes_filter(entries[k].name@, filter) {
            idx.lemma_filter_contains(pred, k);
            assert(v.contains(k as usize));
        }
        if v.contains(k as usize) {
            let j = choose|j: int| 0 <= j < v.len() && v[j] == k as usize;
            idx.lemma_filter_pred(pred, j);
            assert(passes_filter(entries[k].name@, filter));
        }
    }
}

/// Keeping the items of a strictly increasing sequence that satisfy a
/// predicate leaves a strictly increasing sequence.
proof fn lemma_filter_ascending(s: Seq<usize>, pred: spec_fn(usize) -> bool)
    requires
        forall|a: int, b: int| 0 <= a < b < s.len() ==> s[a] < s[b],
    ensures
        forall|a: int, b: int| 0 <= a < b < s.filter(pred).len() ==> s.filter(pred)[a] < s.filter(pred)[b],
    decreases s.len(),
{
    reveal_with_fuel(Seq::<_>::filter, 1);
    if s.len() > 0 {
        let rest = s.drop_last();
        lemma_filter_ascending(rest, pred);
        let f = rest.filter(pred);
        if pred(s.last()) {
            assert forall|k: int| 0 <= k < f.len() implies f[k] < s.last() by {
                assert(f.contains(f[k]));
                rest.lemma_filter_contains_rev(pred, f[k]);
                let j = choose|j: int| 0 <= j < rest.len() && rest[j] == f[k];
                assert(rest[j] == s[j]);
            }
            assert(s.filter(pred) == f.push(s.last()));
        } else {
            assert(s.filter(pred) == f);
        }
    }
}

impl FileBrowser {
    /// A browser on `cwd`, not yet listed.
    pub fn new(cwd: String) -> (b: FileBrowser)
        ensures
            b.cwd == cwd,
            b.entries@.len() == 0,
            b.filter@ == Seq::<char>::empty(),
            b.selected is None,
            b.error is None,
    {
        FileBrowser { cwd, entries: Vec::new(), filter: String::new(), selected: None, error: None }
    }

    /// Shows a listing: a successful one replaces the directory and its
    /// entries and clears the selection and any error; a failed one only
    /// records the error.
    pub fn apply(&mut self, listing: Result<Listing, String>)
        ensures
            match listing {
                Ok(l) => {
                    &&& final(self).cwd == l.dir
                    &&& final(self).entries == l.entries
                    &&& final(self).selected is None
                    &&& final(self).error is None
                    &&& final(self).filter == old(self).filter
                },
                Err(e) => *final(self) == (FileBrowser { error: Some(e), ..*old(self) }),
            },
    {
        match listing {
            Ok(listing) => {
                self.cwd = listing.dir;
                self.entries = listing.entries;
                self.selected = None;
                self.error = None;
            },
            Err(e) => self.error = Some(e),
        }
    }

    /// The title above the listing: `/ ` and the directory's name.
    pub fn cwd_label(&self) -> (res: String)
        ensures
            res@ == "/ "@ + match path_file_name(self.cwd@) {
                Some(n) => n,
                None => Seq::<char>::empty(),
            },
    {
        let mut res = "/ ".to_owned();
        match file_name(self.cwd.as_str()) {
            Some(n) => push_str(&mut res, n.as_str()),
            None => {
                assert(res@ =~= "/ "@ + Seq::<char>::empty());
            },
        }
        res
    }

    /// The entries shown, by index, after filtering by name.
    pub fn visible(&self) -> (res: Vec<usize>)
        ensures
            res@ == visible_spec(self.entries@, self.filter@),
            forall|a: int, b: int| 0 <= a < b < res@.len() ==> res@[a] < res@[b],
            forall|k: int| 0 <= k < res@.len() ==> res@[k] < self.entries@.len(),
            forall|k: int| #![trigger self.entries@[k]] 0 <= k < self.entries@.len() ==> (res@.contains(k as usize) <==> (
                lowercase(self.filter@).len() == 0
                || has_infix(lowercase(self.entries@[k].name@), lowercase(self.filter@)))),
    {

        let filter_lower = to_lowercase(self.filter.as_str());
        let all_pass = filter_lower.as_str().is_empty();
        let ghost idx = Seq::new(self.entries@.len(), |i: int| i as usize);
        let ghost pred = |i: usize| passes_filter(self.entries@[i as int].name@, self.filter@);
        let mut res: Vec<usize> = Vec::new();
        let mut i: usize = 0;
        while i < self.entries.len()
            invariant
                i <= self.entries@.len(),
                idx == Seq::new(self.entries@.len(), |i: int| i as usize),
                pred == (|i: usize| passes_filter(self.entries@[i as int].name@, self.filter@)),
                filter_lower@ == lowercase(self.filter@),
                all_pass == (lowercase(self.filter@).len() == 0),
                res@ == idx.take(i as int).filter(pred),
            decreases self.entries@.len() - i,
        {
            reveal_with_fuel(Seq::<_>::filter, 1);
            assert(idx.take(i + 1).drop_last() =~= idx.take(i as int));
            assert(idx.take(i + 1).last() == i);
            let pass = all_pass || {
                let name_lower = to_lowercase(self.entries[i].name.as_str());
                contains_str(name_lower.as_str(), filter_lower.as_str())
            };
            if pass {
                res.push(i);
            }
            i = i + 1;
        }
        assert(idx.take(self.entries@.len() as int) =~= idx);
        proof {
            lemma_visible_entries(self.entries@, self.filter@);
        }
        res
    }

    /// What double-clicking entry `i` does: enter a directory, open a
    /// notebook, or (other files) select it.
    pub fn activate(&self, i: usize) -> (res: Event)
        requires
            i < self.entries@.len(),
        ensures
            ({
                let e = self.entries@[i as int];
                if e.is_dir {
                    res matches Event::Navigate(p) && p == e.path
                } else if has_suffix(e.name@, ".ipynb"@) {
                    res matches Event::OpenNotebook(p) && p == e.path
                } else {
                    res matches Event::Select(k) && k == i
                }
            }),
    {
        let e = &self.entries[i];
        if e.is_dir {
            Event::Navigate(e.path.clone())
        } else if ends_with_str(e.name.as_str(), ".ipynb") {
            Event::OpenNotebook(e.path.clone())
        } else {
            Event::Select(i)
        }
    }

    /// Handles a sidebar event and says what the app has to do.
    pub fn on_event(&mut self, event: Event) -> (res: Effect)
        ensures
            match event {
                Event::Navigate(p) => res matches Effect::ReadDir(d) && d == p && *final(self) == *old(self),
                Event::Up => (res matches Effect::ReadDir(d) && d@ == match path_parent(old(self).cwd@) {
                    Some(p) => p,
                    None => old(self).cwd@,
                }) && *final(self) == *old(self),
                Event::Refresh => res matches Effect::ReadDir(d) && d == old(self).cwd && *final(self) == *old(self),
                Event::Loaded(l) => res is Nothing && match l {
                    Ok(l) => final(self).cwd == l.dir && final(self).entries == l.entries
                        && final(self).selected is None && final(self).error is None
                        && final(self).filter == old(self).filter,
                    Err(e) => *final(self) == (FileBrowser { error: Some(e), ..*old(self) }),
                },
                Event::FilterChanged(f) => res is Nothing && *final(self) == (FileBrowser { filter: f, ..*old(self) }),
                Event::Select(i) => res is Nothing && *final(self) == (FileBrowser { selected: Some(i), ..*old(self) }),
                Event::OpenNotebook(p) => res matches Effect::OpenNotebook(q) && q == p && *final(self) == *old(self),
            },
    {
        match event {
            Event::Navigate(p) => Effect::ReadDir(p),
            Event::Up => Effect::ReadDir(parent_of(self.cwd.as_str())),
            Event::Refresh => Effect::ReadDir(self.cwd.clone()),
            Event::Loaded(l) => {
                self.apply(l);
                Effect::Nothing
            },
            Event::FilterChanged(f) => {
                self.filter = f;
                Effect::Nothing
            },
            Event::Select(i) => {
                self.selected = Some(i);
                Effect::Nothing
            },
            Event::OpenNotebook(p) => Effect::OpenNotebook(p),
        }
    }
}


// ------------------------------------------------------------------------
// Listing order
// ------------------------------------------------------------------------

/// Entry `a` is listed strictly before `b`: directories come first, then
/// names compare by their lowercase form.
pub open spec fn listed_before(a: Entry, b: Entry) -> bool {
    ||| (a.is_dir && !b.is_dir)
    ||| (a.is_dir == b.is_dir && chars_lt(lowercase(a.name@), lowercase(b.name@)))
}

/// Where a stable insertion puts `x` into `acc`: in front of the first
/// entry that `x` is listed before.
pub open spec fn stable_slot(acc: Seq<Entry>, x: Entry) -> int
    decreases acc.len(),
{
    if acc.len() == 0 {
        0
    } else if listed_before(x, acc[0]) {
        0
    } else {
        1 + stable_slot(acc.drop_first(), x)
    }
}

/// The entries in listing order, entries that tie keeping the order in
/// which they were read (a stable sort).
pub open spec fn listing_order_spec(s: Seq<Entry>) -> Seq<Entry>
    decreases s.len(),
{
    if s.len() == 0 {
        Seq::empty()
    } else {
        let acc = listing_order_spec(s.drop_last());
        acc.insert(stable_slot(acc, s.last()), s.last())
    }
}

/// No entry is listed before an entry in front of it.
pub open spec fn listing_sorted(s: Seq<Entry>) -> bool {
    forall|i: int, j: int| 0 <= i < j < s.len() ==> !listed_before(#[trigger] s[j], #[trigger] s[i])
}

proof fn lemma_listed_before_transitive(a: Entry, b: Entry, c: Entry)
    requires
        listed_before(a, b),
        listed_before(b, c),
    ensures
        listed_before(a, c),
{
    if a.is_dir == b.is_dir && b.is_dir == c.is_dir {
        lemma_lt_transitive(lowercase(a.name@), lowercase(b.name@), lowercase(c.name@));
    }
}

proof fn lemma_listed_before_asymmetric(a: Entry, b: Entry)
    requires
        listed_before(a, b),
    ensures
        !listed_before(b, a),
{
    if a.is_dir == b.is_dir {
        lemma_lt_asymmetric(lowercase(a.name@), lowercase(b.name@));
    }
}

proof fn lemma_stable_slot(acc: Seq<Entry>, x: Entry)
    ensures
        0 <= stable_slot(acc, x) <= acc.len(),
        forall|j: int| 0 <= j < stable_slot(acc, x) ==> !listed_before(x, #[trigger] acc[j]),
        stable_slot(acc, x) < acc.len() ==> listed_before(x, acc[stable_slot(acc, x)]),
    decreases acc.len(),
{
    if acc.len() > 0 && !listed_before(x, acc[0]) {
        let rest = acc.drop_first();
        lemma_stable_slot(rest, x);
        assert forall|j: int| 0 <= j < stable_slot(acc, x) implies !listed_before(x, #[trigger] acc[j]) by {
            if j > 0 {
                assert(acc[j] == rest[j - 1]);
            }
        }
        if stable_slot(acc, x) < acc.len() {
            assert(acc[stable_slot(acc, x)] == rest[stable_slot(rest, x)]);
        }
    }
}

proof fn lemma_stable_slot_at(acc: Seq<Entry>, x: Entry, p: int)
    requires
        0 <= p <= acc.len(),
        forall|j: int| 0 <= j < p ==> !listed_before(x, #[trigger] acc[j]),
        p < acc.len() ==> listed_before(x, acc[p]),
    ensures
        stable_slot(acc, x) == p,
    decreases p,
{
    if p > 0 {
        let rest = acc.drop_first();
        assert forall|j: int| 0 <= j < p - 1 implies !listed_before(x, #[trigger] rest[j]) by {
            assert(rest[j] == acc[j + 1]);
        }
        if p - 1 < rest.len() {
            assert(rest[p - 1] == acc[p]);
        }
        assert(!listed_before(x, acc[0]));
        lemma_stable_slot_at(rest, x, p - 1);
    }
}

proof fn lemma_insert_listing(acc: Seq<Entry>, x: Entry)
    requires
        listing_sorted(acc),
    ensures
        listing_sorted(acc.insert(stable_slot(acc, x), x)),
{
    lemma_stable_slot(acc, x);
    let p = stable_slot(acc, x);
    let r = acc.insert(p, x);
    assert forall|i: int, j: int| 0 <= i < j < r.len() implies !listed_before(#[trigger] r[j], #[trigger] r[i]) by {
        if j < p {
            assert(r[i] == acc[i] && r[j] == acc[j]);
        } else if j == p {
            assert(r[i] == acc[i] && r[j] == x);
        } else if i < p {
            assert(r[i] == acc[i] && r[j] == acc[j - 1]);
        } else if i == p {
            assert(r[i] == x && r[j] == acc[j - 1]);
            if listed_before(acc[j - 1], x) {
                if j - 1 == p {
                    lemma_listed_before_asymmetric(x, acc[p]);
                } else {
                    lemma_listed_before_transitive(acc[j - 1], x, acc[p]);
                }
            }
        } else {
            assert(r[i] == acc[i - 1] && r[j] == acc[j - 1]);
        }
    }
}

/// A listing comes out in listing order, and holds exactly the entries
/// that were read, each as often as it was read.
pub proof fn law_listing_order(s: Seq<Entry>)
    ensures
        listing_sorted(listing_order_spec(s)),
        listing_order_spec(s).to_multiset() == s.to_multiset(),
    decreases s.len(),
{
    broadcast use vstd::seq_lib::group_to_multiset_ensures;
    if s.len() > 0 {
        let prev = s.drop_last();
        law_listing_order(prev);
        let acc = listing_order_spec(prev);
        lemma_insert_listing(acc, s.last());
        lemma_stable_slot(acc, s.last());
        let p = stable_slot(acc, s.last());
        vstd::seq_lib::lemma_seq_union_to_multiset_commutative(acc.take(p), acc.skip(p));
        assert(acc.insert(p, s.last()) =~= acc.take(p).push(s.last()) + acc.skip(p));
        assert(acc =~= acc.take(p) + acc.skip(p));
        vstd::seq_lib::lemma_multiset_commutative(acc.take(p).push(s.last()), acc.skip(p));
        vstd::seq_lib::lemma_multiset_commutative(acc.take(p), acc.skip(p));
        assert(s =~= prev.push(s.last()));
    }
}

/// Puts directory entries in listing order: directories first, then by
/// lowercase name, entries that tie keeping the order in which they came.
pub fn order_listing(entries: Vec<Entry>) -> (res: Vec<Entry>)
    ensures
        res@ == listing_order_spec(entries@),
{
    let ghost src = entries@;
    let mut rest = entries;
    let mut acc: Vec<Entry> = Vec::new();
    let mut keys: Vec<String> = Vec::new();
    while rest.len() > 0
        invariant
            rest@.len() <= src.len(),
            rest@ == src.skip(src.len() - rest@.len()),
            acc@ == listing_order_spec(src.take(src.len() - rest@.len())),
            keys@.len() == acc@.len(),
            forall|j: int| 0 <= j < keys@.len() ==> (#[trigger] keys@[j])@ == lowercase(acc@[j].name@),
        decreases rest@.len(),
    {
        let ghost done = src.len() - rest@.len();
        let x = rest.remove(0);
        assert(x == src[done]);
        assert(src.skip(done).drop_first() =~= src.skip(done + 1));
        assert(rest@ =~= src.skip(done + 1));
        assert(src.take(done + 1).drop_last() =~= src.take(done));
        assert(src.take(done + 1).last() == x);
        let key = to_lowercase(x.name.as_str());
        let mut p: usize = 0;
        while p < acc.len() && !((x.is_dir && !acc[p].is_dir) || (x.is_dir == acc[p].is_dir
            && str_lt(key.as_str(), keys[p].as_str())))
            invariant
                p <= acc@.len(),
                keys@.len() == acc@.len(),
                forall|j: int| 0 <= j < keys@.len() ==> (#[trigger] keys@[j])@ == lowercase(acc@[j].name@),
                key@ == lowercase(x.name@),
                forall|j: int| 0 <= j < p ==> !listed_before(x, #[trigger] acc@[j]),
            decreases acc@.len() - p,
        {
            assert(keys@[p as int]@ == lowercase(acc@[p as int].name@));
            p = p + 1;
        }
        proof {
            if p < acc.len() {
                assert(keys@[p as int]@ == lowercase(acc@[p as int].name@));
            }
            lemma_stable_slot_at(acc@, x, p as int);
        }
        let ghost keys0 = keys@;
        let ghost acc0 = acc@;
        acc.insert(p, x);
        keys.insert(p, key);
        proof {
            assert forall|j: int| 0 <= j < keys@.len() implies (#[trigger] keys@[j])@ == lowercase(acc@[j].name@) by {
                if j < p {
                    assert(keys@[j] == keys0[j] && acc@[j] == acc0[j]);
                } else if j > p {
                    assert(keys@[j] == keys0[j - 1] && acc@[j] == acc0[j - 1]);
                }
            }
        }
    }
    assert(src.take(src.len() as int) =~= src);
    acc
}


/// Whether a directory entry is shown: names starting with a dot are not.
pub open spec fn shown(e: Entry) -> bool {
    !(e.name@.len() > 0 && e.name@[0] == '.')
}

/// What a directory listing shows of the entries read: the shown ones, in
/// listing order.
pub open spec fn listing_entries_spec(read: Seq<Entry>) -> Seq<Entry> {
    listing_order_spec(read.filter(|e: Entry| shown(e)))
}

/// The entries of a directory listing from the entries as they were read:
/// hidden entries are dropped and the rest put in listing order.
pub fn listing_entries(read: Vec<Entry>) -> (res: Vec<Entry>)
    ensures
        res@ == listing_entries_spec(read@),
        listing_sorted(res@),
        res@.to_multiset() == read@.filter(|e: Entry| !(e.name@.len() > 0 && e.name@[0] == '.')).to_multiset(),
        forall|k: int| 0 <= k < res@.len() ==> !((#[trigger] res@[k]).name@.len() > 0 && res@[k].name@[0] == '.'),
{
    proof {
        law_listing_entries(read@);
        assert((|e: Entry| shown(e)) =~= (|e: Entry| !(e.name@.len() > 0 && e.name@[0] == '.')));
    }
    let ghost src = read@;
    let mut rest = read;
    let mut kept: Vec<Entry> = Vec::new();
    while rest.len() > 0
        invariant
            rest@.len() <= src.len(),
            rest@ == src.skip(src.len() - rest@.len()),
            kept@ == src.take(src.len() - rest@.len()).filter(|e: Entry| shown(e)),
        decreases rest@.len(),
    {
        let ghost done = src.len() - rest@.len();
        let e = rest.remove(0);
        assert(e == src[done]);
        assert(src.skip(done).drop_first() =~= src.skip(done + 1));
        assert(src.take(done + 1).drop_last() =~= src.take(done));
        reveal_with_fuel(Seq::<_>::filter, 1);
        if !is_hidden(e.name.as_str()) {
            kept.push(e);
        }
    }
    assert(src.take(src.len() as int) =~= src);
    order_listing(kept)
}


/// A directory listing shows no hidden entry, shows every other entry that
/// was read (each as often as it was read), and is in listing order.
pub proof fn law_listing_entries(read: Seq<Entry>)
    ensures
        listing_sorted(listing_entries_spec(read)),
        listing_entries_spec(read).to_multiset() == read.filter(|e: Entry| shown(e)).to_multiset(),
        forall|k: int| 0 <= k < listing_entries_spec(read).len() ==> shown(#[trigger] listing_entries_spec(read)[k]),
{
    broadcast use vstd::seq_lib::group_to_multiset_ensures;
    let f = read.filter(|e: Entry| shown(e));
    let r = listing_entries_spec(read);
    law_listing_order(f);
    assert forall|k: int| 0 <= k < r.len() implies shown(#[trigger] r[k]) by {
        assert(r.contains(r[k]));
        assert(r.to_multiset().count(r[k]) > 0);
        assert(f.contains(r[k]));
        let j = choose|j: int| 0 <= j < f.len() && f[j] == r[k];
        read.lemma_filter_pred(|e: Entry| shown(e), j);
    }
}

} // verus!
