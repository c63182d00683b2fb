//! Choosing among the installed kernels.

use vstd::prelude::*;
use crate::text::str_eq;
use crate::order::{chars_lt, lemma_lt_irreflexive, lemma_lt_total, lemma_lt_transitive, str_lt};

verus! {

/// An installed kernelspec: its name, language and display name.
#[derive(Debug, Clone)]
pub struct KernelSpecInfo {
    pub name: String,
    pub language: String,
    pub display_name: String,
}

/// Position of the first spec named `name`.
pub fn position_by_name(specs: &Vec<KernelSpecInfo>, name: &str) -> (res: Option<usize>)
    ensures
        match res {
            Some(i) => i < specs@.len() && specs@[i as int].name@ == name@
                && forall|j: int| 0 <= j < i ==> #[trigger] specs@[j].name@ != name@,
            None => forall|j: int| 0 <= j < specs@.len() ==> #[trigger] specs@[j].name@ != name@,
        },
{
    let mut i: usize = 0;
    while i < specs.len()
        invariant
            i <= specs@.len(),
            forall|j: int| 0 <= j < i ==> #[trigger] specs@[j].name@ != name@,
        decreases specs@.len() - i,
    {
        if str_eq(specs[i].name.as_str(), name) {
            return Some(i);
        }
        i = i + 1;
    }
    None
}

/// Position of the first spec for `language`.
pub fn position_by_language(specs: &Vec<KernelSpecInfo>, language: &str) -> (res: Option<usize>)
    ensures
        match res {
            Some(i) => i < specs@.len() && specs@[i as int].language@ == language@
                && forall|j: int| 0 <= j < i ==> #[trigger] specs@[j].language@ != language@,
            None => forall|j: int| 0 <= j < specs@.len() ==> #[trigger] specs@[j].language@ != language@,
        },
{
    let mut i: usize = 0;
    while i < specs.len()
        invariant
            i <= specs@.len(),
            forall|j: int| 0 <= j < i ==> #[trigger] specs@[j].language@ != language@,
        decreases specs@.len() - i,
    {
        if str_eq(specs[i].language.as_str(), language) {
            return Some(i);
        }
        i = i + 1;
    }
    None
}

/// Index of the first spec satisfying the test, if any.
pub open spec fn first_named(specs: Seq<KernelSpecInfo>, name: Seq<char>) -> Option<int> {
    if exists|j: int| 0 <= j < specs.len() && specs[j].name@ == name {
        Some(choose|j: int| 0 <= j < specs.len() && specs[j].name@ == name && forall|k: int| 0 <= k < j ==> specs[k].name@ != name)
    } else {
        None
    }
}

pub open spec fn first_for_language(specs: Seq<KernelSpecInfo>, language: Seq<char>) -> Option<int> {
    if exists|j: int| 0 <= j < specs.len() && specs[j].language@ == language {
        Some(choose|j: int| 0 <= j < specs.len() && specs[j].language@ == language && forall|k: int| 0 <= k < j ==> specs[k].language@ != language)
    } else {
        None
    }
}

proof fn lemma_first_named(specs: Seq<KernelSpecInfo>, name: Seq<char>, i: int)
    requires
        0 <= i < specs.len(),
        specs[i].name@ == name,
        forall|j: int| 0 <= j < i ==> #[trigger] specs[j].name@ != name,
    ensures
        first_named(specs, name) == Some(i),
{
    let c = choose|j: int| 0 <= j < specs.len() && specs[j].name@ == name && forall|k: int| 0 <= k < j ==> specs[k].name@ != name;
    assert(0 <= c < specs.len() && specs[c].name@ == name && forall|k: int| 0 <= k < c ==> specs[k].name@ != name);
    if c < i {
    } else if i < c {
        assert(specs[i].name@ != name);
    }
}

proof fn lemma_first_language(specs: Seq<KernelSpecInfo>, language: Seq<char>, i: int)
    requires
        0 <= i < specs.len(),
        specs[i].language@ == language,
        forall|j: int| 0 <= j < i ==> #[trigger] specs[j].language@ != language,
    ensures
        first_for_language(specs, language) == Some(i),
{
    let c = choose|j: int| 0 <= j < specs.len() && specs[j].language@ == language && forall|k: int| 0 <= k < j ==> specs[k].language@ != language;
    assert(0 <= c < specs.len() && specs[c].language@ == language && forall|k: int| 0 <= k < c ==> specs[k].language@ != language);
    if c < i {
    } else if i < c {
        assert(specs[i].language@ != language);
    }
}

/// Why no kernel could be chosen.
#[derive(Debug, Clone, Copy, PartialEq, Eq, Structural)]
pub enum SpecError {
    /// No kernelspec is installed.
    NoKernels,
    /// No kernelspec runs Python.
    NoPython,
}

/// The kernel a notebook runs on: the one it asks for, else `python3`,
/// else the first Python kernel, else the first kernel.
pub open spec fn chosen_spec(specs: Seq<KernelSpecInfo>, preferred: Option<Seq<char>>) -> Result<int, SpecError> {
    if specs.len() == 0 {
        Err(SpecError::NoKernels)
    } else {
        let by_pref = match preferred {
            Some(p) => first_named(specs, p),
            None => None,
        };
        match by_pref {
            Some(i) => Ok(i),
            None => match first_named(specs, "python3"@) {
                Some(i) => Ok(i),
                None => match first_for_language(specs, "python"@) {
                    Some(i) => Ok(i),
                    None => Ok(0),
                },
            },
        }
    }
}

/// Chooses the kernel to launch for a notebook (an index into `specs`).
pub fn find_spec(preferred: Option<&str>, specs: &Vec<KernelSpecInfo>) -> (res: Result<usize, SpecError>)
    ensures
        match res {
            Ok(i) => chosen_spec(specs@, match preferred { Some(p) => Some(p@), None => None }) == Ok::<int, SpecError>(i as int),
            Err(e) => chosen_spec(specs@, match preferred { Some(p) => Some(p@), None => None }) == Err::<int, SpecError>(e),
        },
{
    if specs.len() == 0 {
        return Err(SpecError::NoKernels);
    }
    if let Some(p) = preferred {
        match position_by_name(specs, p) {
            Some(i) => {
                proof { lemma_first_named(specs@, p@, i as int); }
                return Ok(i);
            },
            None => {},
        }
    }
    match position_by_name(specs, "python3") {
        Some(i) => {
            proof { lemma_first_named(specs@, "python3"@, i as int); }
            Ok(i)
        },
        None => match position_by_language(specs, "python") {
            Some(i) => {
                proof { lemma_first_language(specs@, "python"@, i as int); }
                Ok(i)
            },
            None => Ok(0),
        },
    }
}

/// The kernel the headless smoke test runs: `python3`, else the first
/// Python kernel.
pub open spec fn headless_spec(specs: Seq<KernelSpecInfo>) -> Result<int, SpecError> {
    match first_named(specs, "python3"@) {
        Some(i) => Ok(i),
        None => match first_for_language(specs, "python"@) {
            Some(i) => Ok(i),
            None => Err(SpecError::NoPython),
        },
    }
}

/// Chooses the kernel for the headless smoke test.
pub fn find_python_spec(specs: &Vec<KernelSpecInfo>) -> (res: Result<usize, SpecError>)
    ensures
        match res {
            Ok(i) => headless_spec(specs@) == Ok::<int, SpecError>(i as int),
            Err(e) => headless_spec(specs@) == Err::<int, SpecError>(e),
        },
{
    match position_by_name(specs, "python3") {
        Some(i) => {
            proof { lemma_first_named(specs@, "python3"@, i as int); }
            Ok(i)
        },
        None => match position_by_language(specs, "python") {
            Some(i) => {
                proof { lemma_first_language(specs@, "python"@, i as int); }
                Ok(i)
            },
            None => Err(SpecError::NoPython),
        },
    }
}

/// When kernels are installed, the chosen one is one of them, and a
/// notebook that asks for an installed kernel gets a kernel of that name.
pub proof fn law_chosen_spec_installed(specs: Seq<KernelSpecInfo>, preferred: Option<Seq<char>>)
    ensures
        specs.len() > 0 ==> (chosen_spec(specs, preferred) matches Ok(i) && 0 <= i < specs.len()),
        specs.len() == 0 ==> chosen_spec(specs, preferred) == Err::<int, SpecError>(SpecError::NoKernels),
        (preferred matches Some(p) && exists|j: int| 0 <= j < specs.len() && specs[j].name@ == p) ==>
            (chosen_spec(specs, preferred) matches Ok(i) && specs[i].name@ == preferred->0),
{
    if let Some(p) = preferred {
        if exists|j: int| 0 <= j < specs.len() && specs[j].name@ == p {
            let w = choose|j: int| 0 <= j < specs.len() && specs[j].name@ == p;
            lemma_least_exists(specs, p, w);
        }
    }
    if exists|j: int| 0 <= j < specs.len() && specs[j].name@ == "python3"@ {
        let w = choose|j: int| 0 <= j < specs.len() && specs[j].name@ == "python3"@;
        lemma_least_exists(specs, "python3"@, w);
    }
    if exists|j: int| 0 <= j < specs.len() && specs[j].language@ == "python"@ {
        let w = choose|j: int| 0 <= j < specs.len() && specs[j].language@ == "python"@;
        lemma_least_language_exists(specs, "python"@, w);
    }
}

proof fn lemma_least_exists(specs: Seq<KernelSpecInfo>, name: Seq<char>, w: int)
    requires
        0 <= w < specs.len(),
        specs[w].name@ == name,
    ensures
        exists|j: int| 0 <= j < specs.len() && specs[j].name@ == name && forall|k: int| 0 <= k < j ==> specs[k].name@ != name,
    decreases w,
{
    if exists|k: int| 0 <= k < w && specs[k].name@ == name {
        let k = choose|k: int| 0 <= k < w && specs[k].name@ == name;
        lemma_least_exists(specs, name, k);
    }
}

proof fn lemma_least_language_exists(specs: Seq<KernelSpecInfo>, language: Seq<char>, w: int)
    requires
        0 <= w < specs.len(),
        specs[w].language@ == language,
    ensures
        exists|j: int| 0 <= j < specs.len() && specs[j].language@ == language
            && forall|k: int| 0 <= k < j ==> specs[k].language@ != language,
    decreases w,
{
    if exists|k: int| 0 <= k < w && specs[k].language@ == language {
        let k = choose|k: int| 0 <= k < w && specs[k].language@ == language;
        lemma_least_language_exists(specs, language, k);
    }
}

// ------------------------------------------------------------------------
// Discovery order
// ------------------------------------------------------------------------

/// Position of the first spec whose name does not sort before `name`.
pub open spec fn first_not_below(acc: Seq<KernelSpecInfo>, name: Seq<char>) -> int
    decreases acc.len(),
{
    if acc.len() == 0 {
        0
    } else if !chars_lt(acc[0].name@, name) {
        0
    } else {
        1 + first_not_below(acc.drop_first(), name)
    }
}

pub open spec fn has_name(acc: Seq<KernelSpecInfo>, name: Seq<char>) -> bool {
    exists|j: int| 0 <= j < acc.len() && #[trigger] acc[j].name@ == name
}

/// Adds a spec to a name-sorted list unless its name is already there.
pub open spec fn insert_unique(acc: Seq<KernelSpecInfo>, x: KernelSpecInfo) -> Seq<KernelSpecInfo> {
    if has_name(acc, x.name@) {
        acc
    } else {
        acc.insert(first_not_below(acc, x.name@), x)
    }
}

/// The specs sorted by name (stably), duplicates of a name removed
/// (the first one kept): what `sort_by` on the name followed by
/// `dedup_by` on equal names leaves.
pub open spec fn sorted_unique_spec(s: Seq<KernelSpecInfo>) -> Seq<KernelSpecInfo>
    decreases s.len(),
{
    if s.len() == 0 {
        Seq::empty()
    } else {
        insert_unique(sorted_unique_spec(s.drop_last()), s.last())
    }
}

pub open spec fn strictly_sorted(acc: Seq<KernelSpecInfo>) -> bool {
    forall|i: int, j: int| 0 <= i < j < acc.len() ==> chars_lt(#[trigger] acc[i].name@, #[trigger] acc[j].name@)
}

proof fn lemma_first_not_below(acc: Seq<KernelSpecInfo>, name: Seq<char>, p: int)
    requires
        0 <= p <= acc.len(),
        forall|j: int| 0 <= j < p ==> chars_lt(#[trigger] acc[j].name@, name),
        p < acc.len() ==> !chars_lt(acc[p].name@, name),
    ensures
        first_not_below(acc, name) == p,
    decreases p,
{
    if p > 0 {
        let rest = acc.drop_first();
        assert forall|j: int| 0 <= j < p - 1 implies chars_lt(#[trigger] rest[j].name@, name) by {
            assert(rest[j] == acc[j + 1]);
        }
        if p - 1 < rest.len() {
            assert(rest[p - 1] == acc[p]);
        }
        lemma_first_not_below(rest, name, p - 1);
        assert(chars_lt(acc[0].name@, name));
    }
}

proof fn lemma_first_not_below_props(acc: Seq<KernelSpecInfo>, name: Seq<char>)
    ensures
        0 <= first_not_below(acc, name) <= acc.len(),
        forall|j: int| 0 <= j < first_not_below(acc, name) ==> chars_lt(#[trigger] acc[j].name@, name),
        first_not_below(acc, name) < acc.len() ==> !chars_lt(acc[first_not_below(acc, name)].name@, name),
    decreases acc.len(),
{
    if acc.len() > 0 && chars_lt(acc[0].name@, name) {
        let rest = acc.drop_first();
        lemma_first_not_below_props(rest, name);
        assert forall|j: int| 0 <= j < first_not_below(acc, name) implies chars_lt(#[trigger] acc[j].name@, name) by {
            if j > 0 {
                assert(acc[j] == rest[j - 1]);
            }
        }
        if first_not_below(acc, name) < acc.len() {
            assert(acc[first_not_below(acc, name)] == rest[first_not_below(rest, name)]);
        }
    }
}

/// In a sorted list, a name is present exactly when it is at its
/// insertion position.
proof fn lemma_has_name_at(acc: Seq<KernelSpecInfo>, name: Seq<char>)
    requires
        strictly_sorted(acc),
    ensures
        has_name(acc, name) <==> (first_not_below(acc, name) < acc.len()
            && acc[first_not_below(acc, name)].name@ == name),
{
    lemma_first_not_below_props(acc, name);
    let p = first_not_below(acc, name);
    if has_name(acc, name) {
        let j = choose|j: int| 0 <= j < acc.len() && #[trigger] acc[j].name@ == name;
        if j < p {
            assert(chars_lt(acc[j].name@, name));
            lemma_lt_irreflexive(name);
        } else if j > p {
            assert(chars_lt(acc[p].name@, acc[j].name@));
            lemma_lt_total(acc[p].name@, name);
        }
    }
}

proof fn lemma_insert_sorted(acc: Seq<KernelSpecInfo>, x: KernelSpecInfo)
    requires
        strictly_sorted(acc),
        !has_name(acc, x.name@),
    ensures
        strictly_sorted(acc.insert(first_not_below(acc, x.name@), x)),
{
    lemma_first_not_below_props(acc, x.name@);
    lemma_has_name_at(acc, x.name@);
    let p = first_not_below(acc, x.name@);
    let r = acc.insert(p, x);
    if p < acc.len() {
        lemma_lt_total(acc[p].name@, x.name@);
    }
    assert forall|i: int, j: int| 0 <= i < j < r.len() implies chars_lt(#[trigger] r[i].name@, #[trigger] r[j].name@) by {
        if j < p {
            assert(r[i] == acc[i] && r[j] == acc[j]);
        } else if j == p {
            assert(r[i] == acc[i] && r[j] == x);
        } else if i < p {
            assert(r[i] == acc[i] && r[j] == acc[j - 1]);
        } else if i == p {
            assert(r[i] == x && r[j] == acc[j - 1]);
            if j - 1 > p {
                lemma_lt_transitive(x.name@, acc[p].name@, acc[j - 1].name@);
            }
        } else {
            assert(r[i] == acc[i - 1] && r[j] == acc[j - 1]);
        }
    }
}

/// Kernel discovery lists each kernel name once, sorted by name: the
/// result is strictly sorted, every discovered name is in it, and each of
/// its specs is the first discovered spec of that name.
pub proof fn law_sorted_unique(s: Seq<KernelSpecInfo>)
    ensures
        strictly_sorted(sorted_unique_spec(s)),
        forall|k: int| 0 <= k < s.len() ==> has_name(sorted_unique_spec(s), #[trigger] s[k].name@),
        forall|j: int| 0 <= j < sorted_unique_spec(s).len() ==> exists|k: int| 0 <= k < s.len()
            && s[k] == #[trigger] sorted_unique_spec(s)[j]
            && forall|m: int| 0 <= m < k ==> s[m].name@ != s[k].name@,
    decreases s.len(),
{
    if s.len() > 0 {
        let prev = s.drop_last();
        law_sorted_unique(prev);
        let acc = sorted_unique_spec(prev);
        let x = s.last();
        let r = sorted_unique_spec(s);
        if has_name(acc, x.name@) {
            assert(r == acc);
            assert forall|k: int| 0 <= k < s.len() implies has_name(r, #[trigger] s[k].name@) by {
                if k < prev.len() {
                    assert(s[k] == prev[k]);
                }
            }
            assert forall|j: int| 0 <= j < r.len() implies exists|k: int| 0 <= k < s.len()
                && s[k] == #[trigger] r[j] && forall|m: int| 0 <= m < k ==> s[m].name@ != s[k].name@ by {
                let k = choose|k: int| 0 <= k < prev.len() && prev[k] == acc[j]
                    && forall|m: int| 0 <= m < k ==> prev[m].name@ != prev[k].name@;
                assert(s[k] == prev[k]);
                assert forall|m: int| 0 <= m < k implies s[m].name@ != s[k].name@ by {
                    assert(s[m] == prev[m]);
                }
            }
        } else {
            lemma_insert_sorted(acc, x);
            lemma_first_not_below_props(acc, x.name@);
            let p = first_not_below(acc, x.name@);
            assert(r == acc.insert(p, x));
            assert forall|k: int| 0 <= k < s.len() implies has_name(r, #[trigger] s[k].name@) by {
                if k < prev.len() {
                    assert(s[k] == prev[k]);
                    let j = choose|j: int| 0 <= j < acc.len() && #[trigger] acc[j].name@ == prev[k].name@;
                    if j < p {
                        assert(r[j] == acc[j]);
                    } else {
                        assert(r[j + 1] == acc[j]);
                    }
                } else {
                    assert(r[p] == x);
                }
            }
            assert forall|j: int| 0 <= j < r.len() implies exists|k: int| 0 <= k < s.len()
                && s[k] == #[trigger] r[j] && forall|m: int| 0 <= m < k ==> s[m].name@ != s[k].name@ by {
                if j == p {
                    assert(s[s.len() - 1] == r[j]);
                    assert forall|m: int| 0 <= m < s.len() - 1 implies (#[trigger] s[m]).name@ != s[s.len() - 1].name@ by {
                        assert(s[m] == prev[m]);
                        if s[m].name@ == x.name@ {
                            assert(has_name(acc, prev[m].name@));
                        }
                    }
                } else {
                    let jj = if j < p { j } else { j - 1 };
                    assert(r[j] == acc[jj]);
                    let k = choose|k: int| 0 <= k < prev.len() && prev[k] == acc[jj]
                        && forall|m: int| 0 <= m < k ==> prev[m].name@ != prev[k].name@;
                    assert(s[k] == prev[k]);
                    assert forall|m: int| 0 <= m < k implies s[m].name@ != s[k].name@ by {
                        assert(s[m] == prev[m]);
                    }
                }
            }
        }
    }
}

/// Orders discovered kernelspecs by name and keeps one spec per name (the
/// first discovered).
pub fn sorted_unique(specs: Vec<KernelSpecInfo>) -> (res: Vec<KernelSpecInfo>)
    ensures
        res@ == sorted_unique_spec(specs@),
{
    let ghost src = specs@;
    let mut rest = specs;
    let mut acc: Vec<KernelSpecInfo> = Vec::new();
    while rest.len() > 0
        invariant
            rest@.len() <= src.len(),
            rest@ == src.skip(src.len() - rest@.len()),
            acc@ == sorted_unique_spec(src.take(src.len() - rest@.len())),
            strictly_sorted(acc@),
        decreases rest@.len(),
    {
        let ghost done = src.len() - rest@.len();
        let ghost before = rest@;
        let x = rest.remove(0);
        assert(x == src[done]);
        assert(src.skip(done).drop_first() =~= src.skip(done + 1));
        assert(rest@ =~= src.skip(done + 1));
        assert(src.take(done + 1).drop_last() =~= src.take(done));
        assert(src.take(done + 1).last() == x);
        let mut p: usize = 0;
        while p < acc.len() && str_lt(acc[p].name.as_str(), x.name.as_str())
            invariant
                p <= acc@.len(),
                forall|j: int| 0 <= j < p ==> chars_lt(#[trigger] acc@[j].name@, x.name@),
            decreases acc@.len() - p,
        {
            p = p + 1;
        }
        proof {
            lemma_first_not_below(acc@, x.name@, p as int);
            lemma_has_name_at(acc@, x.name@);
        }
        let present = p < acc.len() && str_eq(acc[p].name.as_str(), x.name.as_str());
        if !present {
            proof {
                lemma_insert_sorted(acc@, x);
            }
            acc.insert(p, x);
        }
    }
    assert(src.take(src.len() as int) =~= src);
    acc
}

} // verus!
